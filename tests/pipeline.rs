use pdf_manipulator::{
    add_documents, classify, is_final_format, join_path, merge_sequence, with_pdf_extension,
    ConversionJob, OfficeConverter, PlanError, RunState, StartOutcome, ValidationError,
};

fn paths(items: &[&str]) -> Vec<String> {
    items.iter().map(|s| s.to_string()).collect()
}

fn plan(converter: &mut OfficeConverter, files: &[String]) -> Vec<ConversionJob> {
    match converter.plan_conversions(&files.to_vec(), "C:\\Temp") {
        Ok(jobs) => jobs,
        Err(PlanError::ScratchPathCollision) => panic!("scratch path collision"),
    }
}

fn is_scratch_path(p: &str) -> bool {
    let prefix = "C:\\Temp\\";
    if !p.starts_with(prefix) || !p.ends_with(".pdf") {
        return false;
    }
    let id = &p[prefix.len()..p.len() - 4];
    id.len() == 32 && id.chars().all(|c| c.is_ascii_digit() || ('a'..='f').contains(&c))
}

#[test]
fn final_format_needs_pdf_extension_and_stem() {
    assert!(is_final_format("b.pdf"));
    assert!(is_final_format("C:\\docs\\report.pdf"));
    assert!(is_final_format("docs/x..pdf"));
    assert!(!is_final_format(".pdf"));
    assert!(!is_final_format("docs/.pdf"));
    assert!(!is_final_format("C:\\docs\\.pdf"));
    assert!(!is_final_format("a.PDF"));
    assert!(!is_final_format("a.docx"));
    assert!(!is_final_format("noextension"));
    assert!(!is_final_format(""));
}

#[test]
fn classify_is_a_stable_partition() {
    let (retained, convertible) = classify(&paths(&["a.docx", "b.pdf", "c.xlsx"]));
    assert_eq!(retained, paths(&["b.pdf"]));
    assert_eq!(convertible, paths(&["a.docx", "c.xlsx"]));

    let (retained, convertible) =
        classify(&paths(&["z.pdf", "y.pptx", "x.pdf", "w.doc", "v.pdf", "README"]));
    assert_eq!(retained, paths(&["z.pdf", "x.pdf", "v.pdf"]));
    assert_eq!(convertible, paths(&["y.pptx", "w.doc", "README"]));
}

#[test]
fn classify_empty_input() {
    let (retained, convertible) = classify(&Vec::new());
    assert!(retained.is_empty());
    assert!(convertible.is_empty());
}

#[test]
fn merge_sequence_puts_retained_first() {
    let merged = merge_sequence(paths(&["b.pdf", "d.pdf"]), paths(&["t1.pdf", "t2.pdf"]));
    assert_eq!(merged, paths(&["b.pdf", "d.pdf", "t1.pdf", "t2.pdf"]));
    assert_eq!(merge_sequence(Vec::new(), Vec::new()), Vec::<String>::new());
}

#[test]
fn join_path_inserts_one_separator() {
    assert_eq!(join_path("C:\\Users\\me", "x.pdf"), "C:\\Users\\me\\x.pdf");
    assert_eq!(join_path("C:\\Temp\\", "x.pdf"), "C:\\Temp\\x.pdf");
    assert_eq!(join_path("/tmp/", "x.pdf"), "/tmp/x.pdf");
    assert_eq!(join_path("", "x.pdf"), "x.pdf");
}

#[test]
fn converter_lives_in_application_folder() {
    assert_eq!(
        OfficeConverter::app_folder("C:\\Users\\me\\AppData\\Roaming"),
        "C:\\Users\\me\\AppData\\Roaming\\pdf-manipulator"
    );
    let converter = OfficeConverter::new("C:\\Users\\me\\AppData\\Roaming");
    assert_eq!(
        converter.executable_path(),
        "C:\\Users\\me\\AppData\\Roaming\\pdf-manipulator\\OfficeToPDF.exe"
    );
}

#[test]
fn plan_gives_each_document_a_scratch_path() {
    let mut converter = OfficeConverter::new("C:\\AppData");
    let files = paths(&["a.docx", "c.xlsx"]);
    let jobs = plan(&mut converter, &files);
    assert_eq!(jobs.len(), 2);
    assert_eq!(jobs[0].input_path, "a.docx");
    assert_eq!(jobs[1].input_path, "c.xlsx");
    for job in &jobs {
        assert!(is_scratch_path(&job.output_path), "{}", job.output_path);
        assert_ne!(job.output_path, job.input_path);
    }
}

#[test]
fn scratch_paths_distinct_within_and_across_runs() {
    let mut converter = OfficeConverter::new("C:\\AppData");
    let first = plan(&mut converter, &paths(&["a.doc", "b.doc", "c.doc", "d.doc", "e.doc"]));
    let second = plan(&mut converter, &paths(&["a.doc", "b.doc", "c.doc"]));
    let mut all: Vec<String> = first.iter().chain(second.iter()).map(|j| j.output_path.clone()).collect();
    assert_eq!(all.len(), 8);
    all.sort();
    all.dedup();
    assert_eq!(all.len(), 8);
}

#[test]
fn plan_of_no_documents_is_empty() {
    let mut converter = OfficeConverter::new("C:\\AppData");
    assert!(plan(&mut converter, &[]).is_empty());
}

fn job(input: &str, output: &str) -> ConversionJob {
    ConversionJob { input_path: input.to_string(), output_path: output.to_string() }
}

#[test]
fn convert_files_keeps_successes_in_submission_order() {
    let jobs = vec![job("a.docx", "t1.pdf"), job("c.xlsx", "t2.pdf"), job("e.pptx", "t3.pdf")];
    assert_eq!(
        OfficeConverter::convert_files(&jobs, &vec![true, true, true]),
        paths(&["t1.pdf", "t2.pdf", "t3.pdf"])
    );
    assert_eq!(
        OfficeConverter::convert_files(&jobs, &vec![false, true, false]),
        paths(&["t2.pdf"])
    );
    assert!(OfficeConverter::convert_files(&jobs, &vec![false, false, false]).is_empty());
}

#[test]
fn all_conversions_succeed_order() {
    let docs = paths(&["x.doc", "first.pdf", "y.xls", "second.pdf"]);
    let (retained, convertible) = classify(&docs);
    let jobs = vec![job(&convertible[0], "tx.pdf"), job(&convertible[1], "ty.pdf")];
    let converted = OfficeConverter::convert_files(&jobs, &vec![true, true]);
    let merged = merge_sequence(retained, converted);
    assert_eq!(merged, paths(&["first.pdf", "second.pdf", "tx.pdf", "ty.pdf"]));
}

#[test]
fn one_failed_conversion_is_omitted() {
    let docs = paths(&["first.pdf", "x.doc", "y.xls", "z.ppt"]);
    let (retained, convertible) = classify(&docs);
    let jobs = vec![
        job(&convertible[0], "tx.pdf"),
        job(&convertible[1], "ty.pdf"),
        job(&convertible[2], "tz.pdf"),
    ];
    let converted = OfficeConverter::convert_files(&jobs, &vec![true, false, true]);
    let merged = merge_sequence(retained, converted);
    assert_eq!(merged.len(), 1 + 3 - 1);
    assert_eq!(merged, paths(&["first.pdf", "tx.pdf", "tz.pdf"]));
}

#[test]
fn concrete_run_of_three_documents() {
    let mut state: RunState<()> = RunState::new(OfficeConverter::new("C:\\AppData"));
    let docs = paths(&["a.docx", "b.pdf", "c.xlsx"]);
    let mut job_for_run = match state.start(&docs, &"out.pdf".to_string()) {
        StartOutcome::Accepted(job) => job,
        _ => panic!("start was not accepted"),
    };
    assert!(state.is_transferring());
    assert_eq!(job_for_run.retained, paths(&["b.pdf"]));
    assert_eq!(job_for_run.convertible, paths(&["a.docx", "c.xlsx"]));
    assert_eq!(job_for_run.output_path, "out.pdf");
    state.launched(());

    let convertible = job_for_run.convertible.clone();
    let jobs = plan(&mut job_for_run.converter, &convertible);
    let converted = OfficeConverter::convert_files(&jobs, &vec![true, false]);
    let merged = merge_sequence(job_for_run.retained.clone(), converted);
    assert_eq!(merged, vec!["b.pdf".to_string(), jobs[0].output_path.clone()]);

    assert_eq!(state.finish(), Some(()));
    assert!(state.is_transferring());
    state.restore(job_for_run.converter);
    assert!(state.is_idle());
}

#[test]
fn start_rejects_empty_document_list() {
    let mut state: RunState<()> = RunState::new(OfficeConverter::new("C:\\AppData"));
    match state.start(&Vec::new(), &"out.pdf".to_string()) {
        StartOutcome::Rejected(e) => assert_eq!(e, ValidationError::EmptyDocuments),
        _ => panic!("empty document list accepted"),
    }
    assert!(state.is_idle());
}

#[test]
fn start_rejects_empty_output_path() {
    let mut state: RunState<()> = RunState::new(OfficeConverter::new("C:\\AppData"));
    match state.start(&paths(&["a.docx", "b.pdf"]), &String::new()) {
        StartOutcome::Rejected(e) => assert_eq!(e, ValidationError::EmptyOutput),
        _ => panic!("empty output path accepted"),
    }
    assert!(state.is_idle());
}

#[test]
fn second_start_while_running_is_ignored() {
    let mut state: RunState<u32> = RunState::new(OfficeConverter::new("C:\\AppData"));
    let docs = paths(&["a.docx"]);
    let out = "out.pdf".to_string();
    let job = match state.start(&docs, &out) {
        StartOutcome::Accepted(job) => job,
        _ => panic!("first start was not accepted"),
    };
    state.launched(7);
    assert!(matches!(state.start(&docs, &out), StartOutcome::Ignored));
    assert!(state.is_running());
    assert_eq!(state.finish(), Some(7));
    assert_eq!(state.finish(), None);
    state.restore(job.converter);
    assert!(state.is_idle());
    assert_eq!(state.finish(), None);
    assert!(state.is_idle());
}

#[test]
fn output_path_gets_pdf_extension() {
    assert_eq!(with_pdf_extension(&"C:\\out".to_string()), "C:\\out.pdf");
    assert_eq!(with_pdf_extension(&"C:\\out.pdf".to_string()), "C:\\out.pdf");
    assert_eq!(with_pdf_extension(&"out.PDF".to_string()), "out.PDF.pdf");
    assert_eq!(with_pdf_extension(&String::new()), ".pdf");
}

#[test]
fn add_documents_skips_duplicates() {
    let mut files = paths(&["a.docx"]);
    add_documents(&mut files, &paths(&["b.pdf", "a.docx", "c.xlsx", "b.pdf"]));
    assert_eq!(files, paths(&["a.docx", "b.pdf", "c.xlsx"]));
}

fn id(c: char) -> String {
    std::iter::repeat(c).take(32).collect()
}

#[test]
fn plan_with_identifiers_names_each_path() {
    let mut converter = OfficeConverter::new("C:\\AppData");
    let files = paths(&["a.docx", "c.xlsx"]);
    let jobs = match converter.plan_with_identifiers(&files, "C:\\Temp", &vec![id('a'), id('0')]) {
        Ok(jobs) => jobs,
        Err(_) => panic!("distinct identifiers rejected"),
    };
    assert_eq!(jobs[0].input_path, "a.docx");
    assert_eq!(jobs[0].output_path, format!("C:\\Temp\\{}.pdf", id('a')));
    assert_eq!(jobs[1].input_path, "c.xlsx");
    assert_eq!(jobs[1].output_path, format!("C:\\Temp\\{}.pdf", id('0')));
}

#[test]
fn plan_with_identifiers_rejects_repeat_within_batch() {
    let mut converter = OfficeConverter::new("C:\\AppData");
    let files = paths(&["a.docx", "c.xlsx"]);
    let r = converter.plan_with_identifiers(&files, "C:\\Temp", &vec![id('b'), id('b')]);
    assert!(matches!(r, Err(PlanError::ScratchPathCollision)));
    // nothing was recorded: the same identifier is accepted once afterwards
    let r = converter.plan_with_identifiers(&paths(&["a.docx"]), "C:\\Temp", &vec![id('b')]);
    assert!(r.is_ok());
}

#[test]
fn plan_with_identifiers_rejects_path_of_earlier_run() {
    let mut converter = OfficeConverter::new("C:\\AppData");
    let first = converter.plan_with_identifiers(&paths(&["a.docx"]), "C:\\Temp", &vec![id('c')]);
    assert!(first.is_ok());
    let again = converter.plan_with_identifiers(
        &paths(&["x.docx", "y.docx"]),
        "C:\\Temp",
        &vec![id('d'), id('c')],
    );
    assert!(matches!(again, Err(PlanError::ScratchPathCollision)));
    // another scratch directory gives other paths
    let elsewhere = converter.plan_with_identifiers(&paths(&["a.docx"]), "D:\\Scratch", &vec![id('c')]);
    assert!(elsewhere.is_ok());
}
