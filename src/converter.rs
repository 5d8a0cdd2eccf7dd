use vstd::prelude::*;
use crate::document::{contains_path, join_path, join_spec};

verus! {

/// The folder, under the per-user application data directory, that holds
/// the conversion engine.
pub open spec fn app_folder_spec(app_data: Seq<char>) -> Seq<char> {
    join_spec(app_data, "pdf-manipulator"@)
}

/// Where the conversion engine is kept.
pub open spec fn executable_spec(app_data: Seq<char>) -> Seq<char> {
    join_spec(app_folder_spec(app_data), "OfficeToPDF.exe"@)
}

pub open spec fn is_lower_hex(c: char) -> bool {
    ('0' <= c && c <= '9') || ('a' <= c && c <= 'f')
}

/// A fresh identifier: 32 lowercase hexadecimal digits.
pub open spec fn is_identifier(id: Seq<char>) -> bool {
    id.len() == 32 && forall|i: int| 0 <= i < 32 ==> is_lower_hex(#[trigger] id[i])
}

/// A scratch output path: a PDF in the scratch directory named by an identifier.
pub open spec fn is_scratch_path(dir: Seq<char>, p: Seq<char>) -> bool {
    exists|id: Seq<char>| is_identifier(id) && p == join_spec(dir, id + ".pdf"@)
}

/// The scratch path that the identifier `id` names in `dir`.
pub open spec fn scratch_path_for(dir: Seq<char>, id: Seq<char>) -> Seq<char> {
    join_spec(dir, id + ".pdf"@)
}

/// Some identifier of the batch names a path that was handed out before,
/// or the same path as an earlier identifier of the batch.
pub open spec fn collides(issued: Seq<Seq<char>>, dir: Seq<char>, ids: Seq<Seq<char>>) -> bool {
    exists|i: int|
        0 <= i < ids.len() && (issued.contains(#[trigger] scratch_path_for(dir, ids[i])) || exists|
            j: int,
        |
            0 <= j < i && scratch_path_for(dir, ids[j]) == scratch_path_for(dir, ids[i]))
}

/// The first `n` identifiers name paths that are new and pairwise distinct.
pub open spec fn fresh_prefix(issued: Seq<Seq<char>>, dir: Seq<char>, ids: Seq<Seq<char>>, n: int) -> bool {
    forall|i: int|
        0 <= i < n ==> !issued.contains(#[trigger] scratch_path_for(dir, ids[i])) && forall|j: int|
            0 <= j < i ==> scratch_path_for(dir, ids[j]) != scratch_path_for(dir, ids[i])
}

/// `ids` could be the identifiers drawn for a batch of `n` documents.
pub open spec fn drawn(ids: Seq<Seq<char>>, n: int) -> bool {
    ids.len() == n && forall|i: int| 0 <= i < n ==> is_identifier(#[trigger] ids[i])
}

/// One conversion: the document to convert and where its PDF is written.
pub struct ConversionJob {
    pub input_path: String,
    pub output_path: String,
}

pub open spec fn outputs_of(jobs: Seq<ConversionJob>) -> Seq<Seq<char>> {
    jobs.map_values(|j: ConversionJob| j.output_path@)
}

/// The outputs whose conversion succeeded, in submission order.
pub open spec fn successes(outputs: Seq<Seq<char>>, succeeded: Seq<bool>) -> Seq<Seq<char>>
    decreases outputs.len(),
{
    if outputs.len() == 0 {
        Seq::empty()
    } else {
        let rest = successes(outputs.drop_last(), succeeded.subrange(0, outputs.len() - 1));
        if succeeded[outputs.len() - 1] {
            rest.push(outputs.last())
        } else {
            rest
        }
    }
}

/// Why a batch of conversions could not be planned.
#[derive(Debug, Clone, Copy, PartialEq, Eq, Structural)]
pub enum PlanError {
    /// A freshly drawn scratch path had already been handed out.
    ScratchPathCollision,
}

/// Relies on uuid::Uuid::new_v4 and its `simple` format: a random
/// identifier written as 32 lowercase hexadecimal digits.
#[verifier::external_body]
fn fresh_identifier() -> (r: String)
    ensures
        is_identifier(r@),
{
    uuid::Uuid::new_v4().simple().to_string()
}

/// The conversion engine, and the record of every scratch path it has
/// handed out, so that no two jobs ever share one.
pub struct OfficeConverter {
    executable_path: String,
    issued: Vec<String>,
}

impl OfficeConverter {
    /// Every scratch path handed out so far, in order.
    pub closed spec fn issued(&self) -> Seq<Seq<char>> {
        self.issued.deep_view()
    }

    pub closed spec fn executable(&self) -> Seq<char> {
        self.executable_path@
    }

    pub open spec fn wf(&self) -> bool {
        self.issued().no_duplicates()
    }

    /// The converter whose engine lies in the application folder under
    /// `app_data`; no scratch path has been handed out yet.
    pub fn new(app_data: &str) -> (r: OfficeConverter)
        ensures
            r.wf(),
            r.executable() == executable_spec(app_data@),
            r.issued() == Seq::<Seq<char>>::empty(),
    {
        let folder = Self::app_folder(app_data);
        let executable_path = join_path(folder.as_str(), "OfficeToPDF.exe");
        let r = OfficeConverter { executable_path, issued: Vec::new() };
        assert(r.issued() =~= Seq::<Seq<char>>::empty());
        r
    }

    /// The application folder under `app_data`.
    pub fn app_folder(app_data: &str) -> (r: String)
        ensures
            r@ == app_folder_spec(app_data@),
    {
        join_path(app_data, "pdf-manipulator")
    }

    pub fn executable_path(&self) -> (r: &String)
        ensures
            r@ == self.executable(),
    {
        &self.executable_path
    }

    /// Gives document `i` the scratch path named by `ids[i]` in
    /// `scratch_dir`. The batch fails, and nothing is recorded, exactly when
    /// one of these paths was handed out before or repeats an earlier one of
    /// the batch; otherwise every path is recorded as handed out.
    pub fn plan_with_identifiers(
        &mut self,
        files: &Vec<String>,
        scratch_dir: &str,
        ids: &Vec<String>,
    ) -> (r: Result<Vec<ConversionJob>, PlanError>)
        requires
            old(self).wf(),
            ids.len() == files.len(),
            forall|i: int| 0 <= i < ids.len() ==> is_identifier((#[trigger] ids[i])@),
        ensures
            final(self).wf(),
            r is Err <==> collides(old(self).issued(), scratch_dir@, ids.deep_view()),
            r is Err ==> *final(self) == *old(self),
            match r {
                Ok(jobs) => {
                    &&& jobs.len() == files.len()
                    &&& forall|i: int| 0 <= i < jobs.len() ==> (#[trigger] jobs[i]).input_path@ == files[i]@
                    &&& forall|i: int| 0 <= i < jobs.len() ==> (#[trigger] jobs[i]).output_path@
                        == scratch_path_for(scratch_dir@, ids[i]@)
                    &&& final(self).issued() == old(self).issued() + outputs_of(jobs@)
                    &&& final(self).executable() == old(self).executable()
                },
                Err(PlanError::ScratchPathCollision) => true,
            },
    {
        let ghost before = self.issued();
        let ghost idv = ids.deep_view();
        let mut paths: Vec<String> = Vec::new();
        let mut i: usize = 0;
        while i < ids.len()
            invariant
                i <= ids.len(),
                idv == ids.deep_view(),
                *self == *old(self),
                self.wf(),
                before == self.issued(),
                paths.len() == i,
                forall|k: int| 0 <= k < i ==> (#[trigger] paths.deep_view()[k]) == scratch_path_for(scratch_dir@, idv[k]),
                fresh_prefix(before, scratch_dir@, idv, i as int),
            decreases ids.len() - i,
        {
            proof {
                reveal_strlit(".pdf");
            }
            let name = ids[i].clone().concat(".pdf");
            let path = join_path(scratch_dir, name.as_str());
            assert(path@ == scratch_path_for(scratch_dir@, idv[i as int]));
            if contains_path(&self.issued, &path) || contains_path(&paths, &path) {
                proof {
                    if !before.contains(path@) {
                        let j = choose|j: int| 0 <= j < paths.len() && paths.deep_view()[j] == path@;
                        assert(scratch_path_for(scratch_dir@, idv[j]) == scratch_path_for(scratch_dir@, idv[i as int]));
                    }
                    assert(collides(before, scratch_dir@, idv));
                }
                return Err(PlanError::ScratchPathCollision);
            }
            let ghost prev = paths.deep_view();
            paths.push(path);
            assert(paths.deep_view() =~= prev.push(path@));
            assert(fresh_prefix(before, scratch_dir@, idv, i as int + 1)) by {
                assert forall|j: int| 0 <= j < i implies scratch_path_for(scratch_dir@, idv[j])
                    != scratch_path_for(scratch_dir@, idv[i as int]) by {
                    assert(prev[j] == scratch_path_for(scratch_dir@, idv[j]));
                }
            }
            i = i + 1;
        }
        assert(!collides(before, scratch_dir@, idv));
        let mut jobs: Vec<ConversionJob> = Vec::new();
        let mut k: usize = 0;
        while k < paths.len()
            invariant
                k <= paths.len(),
                paths.len() == ids.len(),
                ids.len() == files.len(),
                idv == ids.deep_view(),
                jobs.len() == k,
                self.wf(),
                self.executable() == old(self).executable(),
                before == old(self).issued(),
                self.issued() == before + outputs_of(jobs@),
                forall|m: int| 0 <= m < paths.len() ==> (#[trigger] paths.deep_view()[m]) == scratch_path_for(scratch_dir@, idv[m]),
                fresh_prefix(before, scratch_dir@, idv, ids.len() as int),
                forall|m: int| 0 <= m < k ==> (#[trigger] jobs[m]).input_path@ == files[m]@,
                forall|m: int| 0 <= m < k ==> (#[trigger] jobs[m]).output_path@ == scratch_path_for(scratch_dir@, idv[m]),
            decreases paths.len() - k,
        {
            let path = paths[k].clone();
            let ghost prev = self.issued();
            let ghost pv = path@;
            assert(paths.deep_view()[k as int] == paths[k as int]@);
            assert(pv == scratch_path_for(scratch_dir@, idv[k as int]));
            assert(!prev.contains(pv)) by {
                if prev.contains(pv) {
                    let m = choose|m: int| 0 <= m < prev.len() && prev[m] == pv;
                    if m >= before.len() {
                        let q = m - before.len();
                        assert(outputs_of(jobs@)[q] == jobs[q].output_path@);
                        assert(scratch_path_for(scratch_dir@, idv[q]) == pv);
                    } else {
                        assert(before[m] == prev[m]);
                    }
                }
            }
            self.issued.push(path.clone());
            assert(self.issued() =~= prev.push(pv));
            assert(self.issued().no_duplicates()) by {
                assert forall|a: int, b: int| 0 <= a < b < self.issued().len() implies
                    self.issued()[a] != self.issued()[b] by {
                    if b == prev.len() {
                        assert(prev[a] == self.issued()[a]);
                    }
                }
            }
            let ghost jobs_before = jobs@;
            jobs.push(ConversionJob { input_path: files[k].clone(), output_path: path });
            assert(jobs@.drop_last() =~= jobs_before);
            assert(outputs_of(jobs@) =~= outputs_of(jobs_before).push(pv));
            assert(self.issued() =~= before + outputs_of(jobs@));
            k = k + 1;
        }
        Ok(jobs)
    }

    /// Gives each document a fresh scratch path in `scratch_dir`, named by a
    /// freshly drawn identifier. Every path differs from all those handed out
    /// before, in this batch or an earlier one. The batch fails, and nothing
    /// is recorded, only when a drawn identifier gives a path that was handed
    /// out before or repeats one of the batch.
    pub fn plan_conversions(&mut self, files: &Vec<String>, scratch_dir: &str) -> (r: Result<
        Vec<ConversionJob>,
        PlanError,
    >)
        requires
            old(self).wf(),
        ensures
            final(self).wf(),
            final(self).executable() == old(self).executable(),
            match r {
                Ok(jobs) => {
                    &&& jobs.len() == files.len()
                    &&& forall|i: int| 0 <= i < jobs.len() ==> (#[trigger] jobs[i]).input_path@ == files[i]@
                    &&& forall|i: int| 0 <= i < jobs.len() ==> is_scratch_path(scratch_dir@, (#[trigger] jobs[i]).output_path@)
                    &&& final(self).issued() == old(self).issued() + outputs_of(jobs@)
                },
                Err(PlanError::ScratchPathCollision) => {
                    &&& *final(self) == *old(self)
                    &&& exists|ids: Seq<Seq<char>>| #[trigger] drawn(ids, files.len() as int)
                        && collides(old(self).issued(), scratch_dir@, ids)
                },
            },
            files.len() == 0 ==> r is Ok,
    {
        let mut ids: Vec<String> = Vec::new();
        let mut i: usize = 0;
        while i < files.len()
            invariant
                i <= files.len(),
                ids.len() == i,
                forall|k: int| 0 <= k < i ==> is_identifier((#[trigger] ids[k])@),
            decreases files.len() - i,
        {
            ids.push(fresh_identifier());
            i = i + 1;
        }
        let ghost idv = ids.deep_view();
        let r = self.plan_with_identifiers(files, scratch_dir, &ids);
        proof {
            assert(drawn(idv, files.len() as int));
            if r is Ok {
                let jobs = r->Ok_0;
                assert forall|k: int| 0 <= k < jobs.len() implies is_scratch_path(
                    scratch_dir@,
                    (#[trigger] jobs[k]).output_path@,
                ) by {
                    assert(is_identifier(ids[k]@));
                    assert(jobs[k].output_path@ == join_spec(scratch_dir@, ids[k]@ + ".pdf"@));
                }
            }
        }
        r
    }

    /// Finishes a batch: the scratch paths of the jobs whose process
    /// succeeded, in submission order whatever the order of completion.
    pub fn convert_files(jobs: &Vec<ConversionJob>, succeeded: &Vec<bool>) -> (r: Vec<String>)
        requires
            jobs.len() == succeeded.len(),
        ensures
            r.deep_view() == successes(outputs_of(jobs@), succeeded@),
    {
        let mut r: Vec<String> = Vec::new();
        let mut i: usize = 0;
        while i < jobs.len()
            invariant
                i <= jobs.len(),
                jobs.len() == succeeded.len(),
                r.deep_view() == successes(
                    outputs_of(jobs@.subrange(0, i as int)),
                    succeeded@.subrange(0, i as int),
                ),
            decreases jobs.len() - i,
        {
            let ghost outs = outputs_of(jobs@.subrange(0, i as int + 1));
            assert(outs.drop_last() =~= outputs_of(jobs@.subrange(0, i as int)));
            assert(succeeded@.subrange(0, i as int + 1).subrange(0, i as int) =~= succeeded@.subrange(0, i as int));
            if succeeded[i] {
                r.push(jobs[i].output_path.clone());
            }
            assert(r.deep_view() =~= successes(outs, succeeded@.subrange(0, i as int + 1)));
            i = i + 1;
        }
        assert(jobs@.subrange(0, i as int) =~= jobs@);
        assert(succeeded@.subrange(0, i as int) =~= succeeded@);
        r
    }
}

} // verus!
