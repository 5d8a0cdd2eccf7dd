use vstd::prelude::*;

verus! {

/// The characters that separate the components of a path.
pub open spec fn is_separator(c: char) -> bool {
    c == '/' || c == '\\'
}

/// A path names a document already in the final format when its file name
/// has a non-empty stem followed by the extension `.pdf`: the last four
/// characters are `.pdf` and the one before them is not a separator.
pub open spec fn is_final_format_path(p: Seq<char>) -> bool {
    p.len() >= 5 && p.subrange(p.len() - 4, p.len() as int) == seq!['.', 'p', 'd', 'f']
        && !is_separator(p[p.len() - 5])
}

/// Documents that still need conversion: all the others.
pub open spec fn is_convertible_path(p: Seq<char>) -> bool {
    !is_final_format_path(p)
}

/// The documents kept as they are, in their relative order in the input.
pub open spec fn retained_of(docs: Seq<Seq<char>>) -> Seq<Seq<char>> {
    docs.filter(|p: Seq<char>| is_final_format_path(p))
}

/// The documents to convert, in their relative order in the input.
pub open spec fn convertible_of(docs: Seq<Seq<char>>) -> Seq<Seq<char>> {
    docs.filter(|p: Seq<char>| is_convertible_path(p))
}

/// `base` followed by the component `name`, with one separator between them.
pub open spec fn join_spec(base: Seq<char>, name: Seq<char>) -> Seq<char> {
    if base.len() == 0 || is_separator(base.last()) {
        base + name
    } else {
        base + seq!['\\'] + name
    }
}

/// `base` followed by the component `name`, with one separator between them.
pub fn join_path(base: &str, name: &str) -> (r: String)
    ensures
        r@ == join_spec(base@, name@),
{
    let n = base.unicode_len();
    let start = String::from_str(base);
    if n == 0 {
        return start.concat(name);
    }
    let last = base.get_char(n - 1);
    if last == '/' || last == '\\' {
        start.concat(name)
    } else {
        proof {
            reveal_strlit("\\");
        }
        start.concat("\\").concat(name)
    }
}

/// Whether the path names a document that is already a PDF.
pub fn is_final_format(path: &str) -> (r: bool)
    ensures
        r == is_final_format_path(path@),
{
    let n = path.unicode_len();
    if n < 5 {
        return false;
    }
    let dot = path.get_char(n - 4);
    let p = path.get_char(n - 3);
    let d = path.get_char(n - 2);
    let f = path.get_char(n - 1);
    let before = path.get_char(n - 5);
    let r = dot == '.' && p == 'p' && d == 'd' && f == 'f' && !(before == '/' || before == '\\');
    proof {
        let tail = path@.subrange(n - 4, n as int);
        if dot == '.' && p == 'p' && d == 'd' && f == 'f' {
            assert(tail =~= seq!['.', 'p', 'd', 'f']);
        }
        if tail == seq!['.', 'p', 'd', 'f'] {
            assert(tail[0] == '.' && tail[1] == 'p' && tail[2] == 'd' && tail[3] == 'f');
        }
    }
    r
}

/// Splits the documents into those kept as they are and those to convert.
/// The partition is stable: each list keeps the input's relative order.
pub fn classify(paths: &Vec<String>) -> (r: (Vec<String>, Vec<String>))
    ensures
        r.0.deep_view() == retained_of(paths.deep_view()),
        r.1.deep_view() == convertible_of(paths.deep_view()),
{
    let mut retained: Vec<String> = Vec::new();
    let mut convertible: Vec<String> = Vec::new();
    let ghost docs = paths.deep_view();
    let mut i: usize = 0;
    while i < paths.len()
        invariant
            i <= paths.len(),
            docs == paths.deep_view(),
            retained.deep_view() == retained_of(docs.subrange(0, i as int)),
            convertible.deep_view() == convertible_of(docs.subrange(0, i as int)),
        decreases paths.len() - i,
    {
        let path = paths[i].clone();
        let keep = is_final_format(path.as_str());
        proof {
            let prefix = docs.subrange(0, i as int + 1);
            assert(prefix.drop_last() =~= docs.subrange(0, i as int));
            assert(prefix.last() == docs[i as int]);
            reveal(Seq::filter);
        }
        if keep {
            retained.push(path);
        } else {
            convertible.push(path);
        }
        assert(retained.deep_view() =~= retained_of(docs.subrange(0, i as int + 1)));
        assert(convertible.deep_view() =~= convertible_of(docs.subrange(0, i as int + 1)));
        i = i + 1;
    }
    assert(docs.subrange(0, i as int) =~= docs);
    (retained, convertible)
}

/// The list handed to the merge engine: the retained documents followed by
/// the converted ones, each group in its own order.
pub fn merge_sequence(retained: Vec<String>, converted: Vec<String>) -> (r: Vec<String>)
    ensures
        r.deep_view() == retained.deep_view() + converted.deep_view(),
{
    let mut r = retained;
    let mut rest = converted;
    r.append(&mut rest);
    assert(r.deep_view() =~= retained.deep_view() + converted.deep_view());
    r
}

/// Whether the text already ends with `.pdf`.
pub open spec fn ends_with_pdf(t: Seq<char>) -> bool {
    t.len() >= 4 && t.subrange(t.len() - 4, t.len() as int) == seq!['.', 'p', 'd', 'f']
}

/// The output path as chosen, with `.pdf` added unless it already ends so.
pub open spec fn with_pdf_extension_spec(t: Seq<char>) -> Seq<char> {
    if ends_with_pdf(t) {
        t
    } else {
        t + seq!['.', 'p', 'd', 'f']
    }
}

/// The document list after adding `selected` one by one, each only if the
/// list does not hold it yet.
pub open spec fn added(files: Seq<Seq<char>>, selected: Seq<Seq<char>>) -> Seq<Seq<char>>
    decreases selected.len(),
{
    if selected.len() == 0 {
        files
    } else {
        let before = added(files, selected.drop_last());
        if before.contains(selected.last()) {
            before
        } else {
            before.push(selected.last())
        }
    }
}

pub(crate) fn contains_path(list: &Vec<String>, p: &String) -> (r: bool)
    ensures
        r == list.deep_view().contains(p@),
{
    let mut i: usize = 0;
    while i < list.len()
        invariant
            i <= list.len(),
            forall|k: int| 0 <= k < i ==> list.deep_view()[k] != p@,
        decreases list.len() - i,
    {
        if list[i] == *p {
            assert(list.deep_view()[i as int] == p@);
            return true;
        }
        i = i + 1;
    }
    false
}

/// The output path with `.pdf` added unless it already ends so.
pub fn with_pdf_extension(text: &String) -> (r: String)
    ensures
        r@ == with_pdf_extension_spec(text@),
{
    let n = text.as_str().unicode_len();
    if n >= 4 {
        let s = text.as_str();
        let dot = s.get_char(n - 4);
        let p = s.get_char(n - 3);
        let d = s.get_char(n - 2);
        let f = s.get_char(n - 1);
        let tail = Ghost(text@.subrange(n - 4, n as int));
        if dot == '.' && p == 'p' && d == 'd' && f == 'f' {
            assert(tail@ =~= seq!['.', 'p', 'd', 'f']);
            return text.clone();
        }
        assert(tail@ != seq!['.', 'p', 'd', 'f']) by {
            if tail@ == seq!['.', 'p', 'd', 'f'] {
                assert(tail@[0] == '.' && tail@[1] == 'p' && tail@[2] == 'd' && tail@[3] == 'f');
            }
        }
    }
    proof {
        reveal_strlit(".pdf");
    }
    let r = text.clone().concat(".pdf");
    assert(r@ =~= text@ + seq!['.', 'p', 'd', 'f']);
    r
}

/// Adds the selected documents to the list in order, skipping each one the
/// list already holds.
pub fn add_documents(files: &mut Vec<String>, selected: &Vec<String>)
    ensures
        final(files).deep_view() == added(old(files).deep_view(), selected.deep_view()),
{
    let ghost start = files.deep_view();
    let mut i: usize = 0;
    while i < selected.len()
        invariant
            i <= selected.len(),
            files.deep_view() == added(start, selected.deep_view().subrange(0, i as int)),
        decreases selected.len() - i,
    {
        let ghost prefix = selected.deep_view().subrange(0, i as int + 1);
        assert(prefix.drop_last() =~= selected.deep_view().subrange(0, i as int));
        assert(prefix.last() == selected.deep_view()[i as int]);
        if !contains_path(files, &selected[i]) {
            files.push(selected[i].clone());
            assert(files.deep_view() =~= added(start, prefix));
        }
        i = i + 1;
    }
    assert(selected.deep_view().subrange(0, i as int) =~= selected.deep_view());
}

} // verus!
