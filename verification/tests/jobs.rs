use chd_studio::jobs::{
    apply_event, source_deleted, CheckResult, build_args, cancel_status, chdman_args, decrypt_failure_message, failure_message, is_verify,
    job_id, last_line, last_nonblank_line, missing_tool_message, mix_hex, mode_writes_directory,
    outcome, pick_next, push_log, verify_args, writes_directory, JobEvent, JobParams, JobState, JobStatus, Outcome,
};
use chd_studio::settings::Settings;

fn strs(v: &[&str]) -> Vec<String> {
    v.iter().map(|s| s.to_string()).collect()
}

fn settings() -> Settings {
    Settings {
        preset: "fast".to_string(),
        threads: 0,
        overwrite: false,
        verify_after: false,
        delete_source: false,
        parallel: 2,
        xbox_trim: false,
        xbox_skip_update: false,
        chdman_path: None,
    }
}

fn job(tool: &str, mode: &str) -> JobParams {
    JobParams {
        tool: tool.to_string(),
        mode: mode.to_string(),
        input: "in.cue".to_string(),
        output: "out.chd".to_string(),
        output_extra: None,
        codecs: vec![],
        hunk_size: None,
        unit_size: None,
    }
}

#[test]
fn status_names_round_trip() {
    for s in [JobStatus::Queued, JobStatus::Running, JobStatus::Done, JobStatus::Error, JobStatus::Canceled] {
        assert_eq!(JobStatus::from_name(s.as_str()), Some(s));
    }
    assert_eq!(JobStatus::Queued.as_str(), "queued");
    assert_eq!(JobStatus::Canceled.as_str(), "canceled");
    assert_eq!(JobStatus::from_name("cancelled"), None);
}

#[test]
fn predicates_of_modes() {
    assert!(is_verify("verify"));
    assert!(!is_verify("createcd"));
    assert!(writes_directory("iso2god"));
    assert!(!writes_directory("xiso"));
    assert!(mode_writes_directory(&job("iso2god", "iso2god")));
    assert!(mode_writes_directory(&job("xiso", "iso2folder")));
    assert!(mode_writes_directory(&job("ps3iso", "ps3extract")));
    assert!(!mode_writes_directory(&job("xiso", "folder2iso")));
}

#[test]
fn chdman_create_cd() {
    let mut j = job("chdman", "createcd");
    j.codecs = strs(&["cdlz", "cdzl", "cdfl"]);
    let mut s = settings();
    s.overwrite = true;
    s.threads = 6;
    assert_eq!(
        chdman_args(&j, &s),
        strs(&["createcd", "-i", "in.cue", "-o", "out.chd", "-f", "-c", "cdlz,cdzl,cdfl", "-np", "6"])
    );
}

#[test]
fn chdman_create_raw_and_hunks() {
    let mut j = job("chdman", "createraw");
    j.hunk_size = Some(4096);
    assert_eq!(
        chdman_args(&j, &settings()),
        strs(&["createraw", "-i", "in.cue", "-o", "out.chd", "-hs", "4096", "-us", "512"])
    );
    j.unit_size = Some(2048);
    assert_eq!(
        chdman_args(&j, &settings()),
        strs(&["createraw", "-i", "in.cue", "-o", "out.chd", "-hs", "4096", "-us", "2048"])
    );
}

#[test]
fn chdman_extract_and_verify() {
    let mut j = job("chdman", "extractcd");
    j.output_extra = Some("out.bin".to_string());
    j.codecs = strs(&["ignorado"]);
    let mut s = settings();
    s.threads = 4;
    assert_eq!(
        chdman_args(&j, &s),
        strs(&["extractcd", "-i", "in.cue", "-o", "out.chd", "-ob", "out.bin"])
    );
    let v = job("chdman", "verify");
    s.overwrite = true;
    assert_eq!(chdman_args(&v, &s), strs(&["verify", "-i", "in.cue"]));
    assert_eq!(verify_args("a.chd"), strs(&["verify", "-i", "a.chd"]));
}

#[test]
fn build_args_by_tool() {
    let s = settings();
    assert_eq!(build_args(&job("", "createcd"), &s), Some(strs(&["createcd", "-i", "in.cue", "-o", "out.chd"])));
    assert_eq!(build_args(&job("iso2god", "iso2god"), &s), Some(strs(&["in.cue", "out.chd"])));
    assert_eq!(build_args(&job("xiso", "folder2iso"), &s), Some(strs(&["-c", "in.cue", "out.chd"])));
    assert_eq!(build_args(&job("xiso", "iso2folder"), &s), Some(strs(&["-x", "-d", "out.chd", "in.cue"])));
    assert_eq!(
        build_args(&job("maxcso", "iso2cso"), &s),
        Some(strs(&["--format=cso1", "--fast", "in.cue", "-o", "out.chd"]))
    );
    for t in ["nsz", "4nxci", "z3ds", "3dsconv", "wit", "dolphintool", "ps3iso"] {
        assert_eq!(build_args(&job(t, "x"), &s), None);
    }
}

#[test]
fn queue_respects_parallel_limit() {
    assert_eq!(pick_next(&vec![JobStatus::Done, JobStatus::Queued, JobStatus::Queued], 1), Some(1));
    assert_eq!(pick_next(&vec![JobStatus::Running, JobStatus::Queued], 1), None);
    assert_eq!(pick_next(&vec![JobStatus::Running, JobStatus::Queued], 0), None);
    assert_eq!(pick_next(&vec![JobStatus::Queued], 0), Some(0));
    assert_eq!(pick_next(&vec![JobStatus::Running, JobStatus::Error, JobStatus::Queued, JobStatus::Queued], 2), Some(2));
    assert_eq!(pick_next(&vec![JobStatus::Running, JobStatus::Running, JobStatus::Queued], 2), None);
    assert_eq!(pick_next(&vec![JobStatus::Done, JobStatus::Canceled], 4), None);
    assert_eq!(pick_next(&vec![], 4), None);
    // starting jobs one after another never goes past the limit
    let mut st = vec![JobStatus::Queued, JobStatus::Queued, JobStatus::Queued, JobStatus::Queued];
    while let Some(i) = pick_next(&st, 3) {
        st[i] = JobStatus::Running;
    }
    assert_eq!(st, vec![JobStatus::Running, JobStatus::Running, JobStatus::Running, JobStatus::Queued]);
}

#[test]
fn cancel_only_touches_queued_jobs() {
    assert_eq!(cancel_status(JobStatus::Queued), JobStatus::Canceled);
    assert_eq!(cancel_status(JobStatus::Running), JobStatus::Running);
    assert_eq!(cancel_status(JobStatus::Done), JobStatus::Done);
}

#[test]
fn log_keeps_the_last_400_lines() {
    let mut log: Vec<String> = vec![];
    for i in 0..450 {
        push_log(&mut log, format!("linea {i}"));
        assert!(log.len() <= 400);
        assert_eq!(log.last().unwrap(), &format!("linea {i}"));
    }
    assert_eq!(log.len(), 400);
    assert_eq!(log[0], "linea 50");
}

#[test]
fn failure_message_from_log() {
    let log = strs(&["Compressing", "Error: bad header", "Unable to open", "done"]);
    assert_eq!(failure_message(&log), "Unable to open");
    assert_eq!(failure_message(&strs(&["FATAL ERROR"])), "FATAL ERROR");
    assert_eq!(failure_message(&strs(&["todo bien"])), "chdman termino con error");
    assert_eq!(failure_message(&vec![]), "chdman termino con error");
}

#[test]
fn outcomes_after_the_process_ends() {
    let mut s = settings();
    let mut j = job("chdman", "createcd");
    j.output_extra = Some("x.bin".to_string());
    assert_eq!(outcome(&j, &s, true, false, 0), Outcome::Canceled { remove_output: true, remove_extra: true });
    assert_eq!(outcome(&j, &s, false, false, 0), Outcome::Failed { remove_output: true });
    assert_eq!(outcome(&j, &s, false, false, 10), Outcome::Failed { remove_output: false });
    assert_eq!(outcome(&j, &s, false, true, 10), Outcome::Succeeded { verify_first: false, delete_source: false });
    s.verify_after = true;
    s.delete_source = true;
    assert_eq!(outcome(&j, &s, false, true, 10), Outcome::Succeeded { verify_first: true, delete_source: true });
    assert_eq!(outcome(&j, &s, false, true, 0), Outcome::Succeeded { verify_first: true, delete_source: false });
    let v = job("chdman", "verify");
    assert_eq!(outcome(&v, &s, true, true, 0), Outcome::Canceled { remove_output: false, remove_extra: false });
    assert_eq!(outcome(&v, &s, false, false, 0), Outcome::Failed { remove_output: false });
    let n = job("nsz", "nsp2nsz");
    assert_eq!(outcome(&n, &s, false, true, 5), Outcome::Succeeded { verify_first: false, delete_source: true });
    let e = job("chdman", "extractcd");
    assert_eq!(outcome(&e, &s, false, true, 5), Outcome::Succeeded { verify_first: false, delete_source: false });
}

#[test]
fn job_ids() {
    assert_eq!(mix_hex(0, 0), "0");
    assert_eq!(mix_hex(0, 255), "ff");
    assert_eq!(mix_hex(1, 0), "9e3779b97f4a7c15");
    assert_eq!(mix_hex(2, 0), format!("{:x}", 2u64.wrapping_mul(0x9E37_79B9_7F4A_7C15)));
    assert_eq!(job_id(1700000000123, "ab"), "1700000000123-ab");
    assert_eq!(job_id(-5, "x"), "-5-x");
    assert_eq!(job_id(i64::MIN, "x"), format!("{}-x", i64::MIN));
}

#[test]
fn report_lines() {
    assert_eq!(last_line("a\nb\n"), Some("b".to_string()));
    assert_eq!(last_line("a\r\nb\r\n"), Some("b".to_string()));
    assert_eq!(last_line(""), None);
    assert_eq!(last_nonblank_line("x\nerror final\n  \n\n"), Some("error final".to_string()));
    assert_eq!(last_nonblank_line("  \n \t"), None);
    assert_eq!(missing_tool_message("maxcso"), "No se encontro «maxcso». Instalalo desde Ajustes → Herramientas.");
}

#[test]
fn decryption_failures() {
    assert_eq!(
        decrypt_failure_message("ERROR: Unable to decrypt: missing seed"),
        Some("Este juego usa cifrado por semilla y no se encontro seeddb.bin. Indicale su ruta en esta misma pantalla.".to_string())
    );
    assert_eq!(
        decrypt_failure_message("unable to decrypt exefs"),
        Some("No se pudo descifrar el contenido. Revisa que boot9.bin sea correcto.".to_string())
    );
    assert_eq!(decrypt_failure_message("ok"), None);
}

fn fresh_state() -> JobState {
    JobState::queued()
}

#[test]
fn heartbeat_moves_a_started_job_to_processing() {
    let mut st = fresh_state();
    apply_event(&mut st, JobEvent::Started);
    assert_eq!(st.status, JobStatus::Running);
    assert_eq!(st.phase, "Iniciando");
    apply_event(&mut st, JobEvent::Heartbeat);
    assert_eq!(st.phase, "Procesando");
    apply_event(&mut st, JobEvent::Progress { phase: "Comprimiendo".to_string() });
    apply_event(&mut st, JobEvent::Heartbeat);
    assert_eq!(st.phase, "Comprimiendo");
    assert_eq!(st.status, JobStatus::Running);
    assert_eq!(st.message, None);
}

#[test]
fn job_errors_carry_their_messages() {
    let mut st = fresh_state();
    apply_event(&mut st, JobEvent::ToolMissing { tool: "maxcso".to_string() });
    assert_eq!(st.status, JobStatus::Error);
    assert_eq!(st.phase, "En cola");
    assert_eq!(
        st.message.as_deref(),
        Some("No se encontro «maxcso». Instalalo desde Ajustes → Herramientas.")
    );

    let mut st = fresh_state();
    apply_event(&mut st, JobEvent::Started);
    apply_event(&mut st, JobEvent::SpawnFailed { reason: "permiso denegado".to_string() });
    assert_eq!(st.status, JobStatus::Error);
    assert_eq!(st.phase, "Iniciando");
    assert_eq!(st.message.as_deref(), Some("No se pudo iniciar chdman: permiso denegado"));

    let mut st = fresh_state();
    apply_event(&mut st, JobEvent::Refused { reason: "no disponible".to_string() });
    assert_eq!(st.status, JobStatus::Error);
    assert_eq!(st.phase, "Error");
    assert_eq!(st.message.as_deref(), Some("no disponible"));
}

#[test]
fn a_failed_job_reports_its_last_failure_line() {
    let mut st = fresh_state();
    apply_event(&mut st, JobEvent::Started);
    apply_event(&mut st, JobEvent::Output { line: "Error: bad header".to_string() });
    apply_event(&mut st, JobEvent::Output { line: "Fatal: unable to open".to_string() });
    apply_event(&mut st, JobEvent::Output { line: "bye".to_string() });
    assert_eq!(st.log.len(), 3);
    apply_event(&mut st, JobEvent::Failed);
    assert_eq!(st.status, JobStatus::Error);
    assert_eq!(st.phase, "Error");
    assert_eq!(st.message.as_deref(), Some("Fatal: unable to open"));

    let mut quiet = fresh_state();
    apply_event(&mut quiet, JobEvent::Failed);
    assert_eq!(quiet.message.as_deref(), Some("chdman termino con error"));
}

#[test]
fn job_log_keeps_the_newest_lines() {
    let mut st = fresh_state();
    for i in 0..405 {
        apply_event(&mut st, JobEvent::Output { line: format!("linea {i}") });
    }
    assert_eq!(st.log.len(), 400);
    assert_eq!(st.log[0], "linea 5");
    assert_eq!(st.log[399], "linea 404");
}

#[test]
fn verification_and_end_of_a_job() {
    let mut st = fresh_state();
    apply_event(&mut st, JobEvent::Started);
    apply_event(&mut st, JobEvent::Verifying);
    assert_eq!(st.phase, "Verificando");
    apply_event(&mut st, JobEvent::VerifyUnavailable { reason: "sin chdman".to_string() });
    assert_eq!(st.status, JobStatus::Running);
    assert_eq!(st.message.as_deref(), Some("No se pudo verificar: sin chdman"));
    apply_event(&mut st, JobEvent::Finished);
    assert_eq!(st.status, JobStatus::Done);
    assert_eq!(st.phase, "Listo");

    let mut bad = fresh_state();
    apply_event(&mut bad, JobEvent::VerifyFailed { output: "Checking\nSHA1 mismatch".to_string() });
    assert_eq!(bad.status, JobStatus::Error);
    assert_eq!(bad.phase, "Verificacion fallida");
    assert_eq!(bad.message.as_deref(), Some("SHA1 mismatch"));

    let mut silent = fresh_state();
    apply_event(&mut silent, JobEvent::VerifyFailed { output: String::new() });
    assert_eq!(silent.message.as_deref(), Some("Verificacion fallida"));

    let mut gone = fresh_state();
    apply_event(&mut gone, JobEvent::Started);
    apply_event(&mut gone, JobEvent::Canceled);
    assert_eq!(gone.status, JobStatus::Canceled);
    assert_eq!(gone.phase, "Cancelado");
    assert_eq!(gone.message.as_deref(), Some("Cancelado por el usuario"));
}

#[test]
fn a_new_job_waits_in_the_queue() {
    let st = JobState::queued();
    assert_eq!(st.status, JobStatus::Queued);
    assert_eq!(st.phase, "En cola");
    assert_eq!(st.message, None);
    assert!(st.log.is_empty());
}

#[test]
fn withdrawing_cancels_only_queued_jobs() {
    let mut st = JobState::queued();
    apply_event(&mut st, JobEvent::Withdrawn);
    assert_eq!(st.status, JobStatus::Canceled);
    assert_eq!(st.phase, "Cancelado");
    assert_eq!(st.message, None);

    let mut running = JobState::queued();
    apply_event(&mut running, JobEvent::Started);
    apply_event(&mut running, JobEvent::Withdrawn);
    assert_eq!(running.status, JobStatus::Running);
    assert_eq!(running.phase, "Iniciando");
}

#[test]
fn a_failed_check_keeps_the_source() {
    let mut s = settings();
    s.delete_source = true;
    s.verify_after = true;
    let j = job("chdman", "createcd");
    let o = outcome(&j, &s, false, true, 10);
    assert_eq!(o, Outcome::Succeeded { verify_first: true, delete_source: true });
    assert!(!source_deleted(o, CheckResult::Failed));
    assert!(source_deleted(o, CheckResult::Passed));
    assert!(source_deleted(o, CheckResult::Unavailable));
    assert!(!source_deleted(outcome(&j, &s, true, true, 10), CheckResult::Passed));
    assert!(!source_deleted(outcome(&j, &s, false, false, 10), CheckResult::NotRun));
    assert!(!source_deleted(outcome(&j, &s, false, true, 0), CheckResult::Passed));
    s.delete_source = false;
    assert!(!source_deleted(outcome(&j, &s, false, true, 10), CheckResult::Passed));
}
