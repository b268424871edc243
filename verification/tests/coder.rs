use k2::k2_coder::processor_coder::{DeleteStep, ProcessCoder};
use k2::k2_coder::application_coder::{ApplicationCoder as StreamsCoder, main_file_removed};
use k2::k2_coder::library_coder::{LibraryCoder as ProcessorsCoder, LibraryDelete, project_deleted};
use k2::k2_coder::coder::{Coder as FirstFormCoder, CoderStep as FirstFormStep};
use k2::k2_lang::coder::{Coder, CoderStep, NewPlan};
use k2::k2_lang::objects::{K2Object, K2ReturnStruct};
use k2::k2_stream::errors::{K2Error, K2ErrorCode};
use k2::k2_stream::log::{K2LogLevel, K2LogStruct, LogLevel, Logger};
use k2::k2coder::coder::{to_snake_case, Coder as ProjectsCoder, CoderStep as ProjectStep, ProjectKind, project_path};
use k2::k2coder::library_coder::LibraryCoder;
use k2::k2coder::application_coder::ApplicationCoder;
use k2::k2coder::processor_coder::{ProcessorCodePart, ProcessorCoder};
use k2::k2coder::streamer_coder::StreamerCoder;
use k2::k2lang::objects::K2LangStruct;
use k2::interfaces::tcp_ip_client::TcpIpClient;

fn object(name: &str, kind: &str, props: &[(&str, &str)]) -> K2Object {
    let mut o = K2Object::named(name.to_string(), kind.to_string());
    for (k, v) in props {
        o.properties.insert(k.to_string(), v.to_string());
    }
    o
}

fn lang(line: &str, data: Vec<K2Object>) -> K2LangStruct {
    K2LangStruct {
        command: line.to_string(),
        message: "Ok".to_string(),
        tokens: line.split_whitespace().map(|s| s.to_string()).collect(),
        data,
    }
}

fn ret(line: &str, data: Vec<K2Object>) -> K2ReturnStruct {
    K2ReturnStruct {
        success: true,
        command: line.to_string(),
        tokens: line.split_whitespace().map(|s| s.to_string()).collect(),
        message: "Ok".to_string(),
        data,
    }
}

#[test]
fn snake_case_names() {
    assert_eq!(to_snake_case(&"MyProcessor".to_string()), "my_processor");
    assert_eq!(to_snake_case(&"HTTPServer".to_string()), "h_t_t_p_server");
    assert_eq!(to_snake_case(&"already_snake".to_string()), "already_snake");
    assert_eq!(to_snake_case(&"".to_string()), "");
    assert_eq!(to_snake_case(&"ProcessorCoder".to_string()), "processor_coder");
    assert_eq!(to_snake_case(&"my_proc".to_string()), "my_proc");
    let snake = to_snake_case(&"MyHTTPServer".to_string());
    assert_eq!(snake.replace('_', ""), "MyHTTPServer".to_ascii_lowercase());
}

#[test]
fn code_part_conversions() {
    assert!(ProcessorCodePart::try_from(9u8).unwrap() == ProcessorCodePart::Process);
    let e = ProcessorCodePart::try_from(12u8).err().unwrap();
    assert!(e.code == K2ErrorCode::ErrorRange);
    assert_eq!(e.message, "Value {} not valid code part");
    assert!(ProcessorCodePart::try_from("finalize".to_string()).unwrap() == ProcessorCodePart::Finalize);
    let e = ProcessorCodePart::try_from("nope".to_string()).err().unwrap();
    assert!(e.code == K2ErrorCode::InvalidValue);
    assert_eq!(e.message, "nope not valid");
    assert!(!ProcessorCodePart::K2MemberCreation.is_writable());
    assert!(ProcessorCodePart::UserCode.is_writable());
    assert_eq!(ProcessorCodePart::K2ProcessorStruct.to_string(), "k2_processor_struct");
}

#[test]
fn processor_coder_members_and_code() {
    let templates: Vec<String> = (0..12).map(|i| format!("part{}", i)).collect();
    let mut coder = ProcessorCoder::new("MyProc".to_string(), "/lib".to_string(), &templates).unwrap();
    assert_eq!(coder.get_path(), "/lib/src/my_proc.rs");
    let r = coder.execute(&lang("new input lib.MyProc.in", vec![object("in", "input", &[("type", "f64")])]));
    assert_eq!(r.unwrap(), "Ok");
    let e = coder.execute(&lang("new input lib.MyProc.in", vec![object("in", "input", &[("type", "f64")])])).err().unwrap();
    assert!(e.code == K2ErrorCode::AlreadyExists);
    assert_eq!(e.message, "Object in already exist");
    let e = coder.execute(&lang("new state lib.MyProc.s", vec![object("s", "state", &[("type", "i32")])])).err().unwrap();
    assert!(e.code == K2ErrorCode::NotFound);
    assert_eq!(e.message, "Type field not found");
    let e = coder.execute(&lang("new block lib.MyProc.b", vec![object("b", "block", &[])])).err().unwrap();
    assert!(e.code == K2ErrorCode::BadFormat);
    assert_eq!(e.message, "Type block not exists");
    assert!(coder.execute(&lang("set x description demo", vec![object("MyProc", "processor", &[])])).is_ok());
    let e = coder.execute(&lang("set x value 3", vec![object("ghost", "state", &[])])).err().unwrap();
    assert_eq!(e.message, "Object ghost does not exist");
    let e = coder.execute(&lang("code x k2_import text", vec![object("MyProc", "processor", &[])])).err().unwrap();
    assert!(e.code == K2ErrorCode::NotAllowed);
    assert_eq!(e.message, "Code part k2_import is read-only");
    assert!(coder.execute(&lang("code x process body", vec![object("MyProc", "processor", &[])])).is_ok());
    let e = coder.execute(&lang("exec x", vec![object("MyProc", "processor", &[])])).err().unwrap();
    assert!(e.code == K2ErrorCode::InvalidOperation);
    assert!(coder.generate_k2_member_creation().is_ok());
    let text = coder.generate().unwrap();
    let lines: Vec<&str> = text.split('\n').collect();
    assert_eq!(lines[0], "part0");
    assert_eq!(lines[4], "}");
    assert_eq!(lines[7], "       }");
    assert_eq!(lines[8], "    self_instance.get_stream_block_mut().add_input::<f64>(\"in\");");
    assert!(lines.contains(&"body"));
    assert!(coder.build().is_ok());
}

#[test]
fn processor_coder_set_and_delete() {
    let templates: Vec<String> = (0..12).map(|i| format!("part{}", i)).collect();
    let mut coder = ProcessorCoder::new("P".to_string(), "/l".to_string(), &templates).unwrap();
    assert!(coder.execute(&lang("new parameter l.P.p", vec![object("p", "parameter", &[("type", "i32"), ("value", "1"), ("kind", "STATIC")])])).is_ok());
    assert!(coder.execute(&lang("set x kind y", vec![object("p", "parameter", &[])])).is_ok());
    assert!(coder.execute(&lang("delete p", vec![object("p", "parameter", &[])])).is_ok());
    assert!(coder.generate().is_ok());
}

#[test]
fn streamer_coder_configuration() {
    let mut s = StreamerCoder::new("app".to_string(), "/apps/a".to_string());
    assert!(s.execute(&lang("new block b", vec![object("app.c.b", "block", &[("type", "Gain")])])).is_ok());
    assert!(s.execute(&lang("new chain c", vec![object("app.c", "chain", &[])])).is_ok());
    assert!(s.execute(&lang("new mode m", vec![object("app.m", "mode", &[])])).is_ok());
    let e = s.execute(&lang("new block x", vec![object("app.x", "block", &[])])).err().unwrap();
    assert_eq!(e.message, "Type field not found");
    let e = s.execute(&lang("add a b", vec![object("app.m", "mode", &[]), object("app.c.b", "block", &[])])).err().unwrap();
    assert!(e.code == K2ErrorCode::InvalidOperation);
    assert_eq!(e.message, "Type mode can not be added to type block");
    assert!(s.execute(&lang("add a b", vec![object("app.m", "mode", &[]), object("app.c", "chain", &[])])).is_ok());
    assert!(s.execute(&lang("connect a b", vec![object("app.c.b.out", "output", &[]), object("app.c.b.in", "input", &[])])).is_ok());
    assert!(s.execute(&lang("disconnect a b", vec![object("app.c.b.out", "output", &[]), object("app.c.b.in", "input", &[])])).is_ok());
    let e = s.execute(&lang("connect a b", vec![object("nodot", "output", &[]), object("x", "input", &[])])).err().unwrap();
    assert_eq!(e.message, "Invalid name nodot");
    let lines = s.configuration_lines();
    assert_eq!(lines[0], "impl StreamConfiguration {");
    assert_eq!(lines[2], "        self.blocks.insert(\"app.c.b\", Gain::new(\"app.c.b\")");
    assert_eq!(lines[5], "        self.chains.insert(\"app.c\", Chain::new(\"app.c\")");
    assert_eq!(lines[11], "        let mode = OperativeMode::new(\"app.m\".to_string)");
    assert_eq!(s.generate().unwrap(), "Ok");
}

#[test]
fn lang_coder_steps() {
    let mut coder = Coder::new("coder".to_string(), "cargo".to_string());
    let step = coder.execute(&ret("new library lib", vec![object("lib", "library", &[("path", "/tmp/libs")])]));
    match step {
        CoderStep::CreateLibrary { path, name, cargo_path } => {
            assert_eq!(path, "/tmp/libs");
            assert_eq!(name, "lib");
            assert_eq!(cargo_path, "cargo");
        }
        _ => panic!("expected a library step"),
    }
    let cmd = ret("new library lib", vec![object("lib", "library", &[("path", "/tmp/libs")])]);
    let r = coder.library_created(&cmd, Some((true, "created".to_string())));
    assert!(r.success);
    assert_eq!(r.message, "created");
    let cmd = ret("new processor lib.proc", vec![object("lib.proc", "processor", &[])]);
    match coder.proc_new(&cmd).unwrap() {
        NewPlan::ProcessorFile(p) => assert_eq!(p, "/tmp/libs/lib/src/lib.proc.rs"),
        _ => panic!("expected a processor file"),
    }
    let templates: Vec<String> = (0..11).map(|i| format!("t{}", i)).collect();
    let r = coder.processor_file_ready(&cmd, true, &templates);
    assert!(r.success);
    let r = coder.execute(&ret("new input lib.proc.in", vec![object("lib.proc.in", "input", &[("data_type", "f64")])]));
    match r {
        CoderStep::Reply(x) => assert!(x.success),
        _ => panic!("expected a reply"),
    }
    let r = coder.execute(&ret("new input lib.other.in", vec![object("lib.other.in", "input", &[("data_type", "f64")])]));
    match r {
        CoderStep::Reply(x) => {
            assert!(!x.success);
            assert_eq!(x.message, "Error");
        }
        _ => panic!("expected a reply"),
    }
    let e = coder.proc_new(&ret("new parameter lib.proc.p", vec![object("lib.proc.p", "parameter", &[("data_type", "i32"), ("value", "1"), ("kind", "often")])])).err().unwrap();
    assert_eq!(e, "Parameter kind must be either static or dynamic");
    match coder.execute(&ret("frob x", vec![])) {
        CoderStep::Reply(x) => assert_eq!(x.message, "Unknown"),
        _ => panic!("expected a reply"),
    }
}

#[test]
fn process_coder_set_delete_generate() {
    let templates: Vec<String> = (0..11).map(|i| format!("t{}", i)).collect();
    let mut c = ProcessCoder::new("proc".to_string(), &object("proc", "processor", &[]), &templates).unwrap();
    let new_input = K2ReturnStruct { data: vec![object("in", "input", &[("type", "u8")])], ..ret("new input in u8", vec![]) };
    assert_eq!(c.proc_new(&new_input).unwrap(), "Object in created");
    let set = K2ReturnStruct { data: vec![object("proc", "processor", &[("k2_import", "x"), ("process_code", "run()")])], ..ret("set proc", vec![]) };
    assert_eq!(c.proc_set(&set).unwrap(), "Set value for proc");
    let set = K2ReturnStruct { data: vec![object("proc", "processor", &[("nothing", "x")])], ..ret("set proc", vec![]) };
    assert_eq!(c.proc_set(&set).err().unwrap(), "Invalid set on processor proc");
    let set = K2ReturnStruct { data: vec![object("in", "input", &[])], ..ret("set in", vec![]) };
    assert_eq!(c.proc_set(&set).err().unwrap(), "Missing value");
    let text = c.generate().unwrap();
    let lines: Vec<&str> = text.split('\n').collect();
    assert_eq!(lines[3], "impl ProcessorTrait for proc {");
    assert!(lines.contains(&"run()"));
    let del = K2ReturnStruct { data: vec![object("proc", "processor", &[])], ..ret("delete proc", vec![]) };
    assert_eq!(c.proc_delete(&del).err().unwrap(), "Path not set");
    c.set_parent_directory("/src".to_string());
    match c.proc_delete(&del).unwrap() {
        DeleteStep::RemoveFile(p) => assert_eq!(p, "/src/proc.rs"),
        _ => panic!("expected a file removal"),
    }
    let del = K2ReturnStruct { data: vec![object("in", "input", &[])], ..ret("delete in", vec![]) };
    match c.proc_delete(&del).unwrap() {
        DeleteStep::Done(m) => assert_eq!(m, "Object in deleted with success"),
        _ => panic!("expected a member deletion"),
    }
    assert_eq!(c.proc_delete(&del).err().unwrap(), "Object in not found");
}

#[test]
fn log_levels_and_routes() {
    assert!(K2LogLevel::try_from(3u8).unwrap() == K2LogLevel::Error);
    let e = K2LogLevel::try_from(9u8).err().unwrap();
    assert!(e.code == K2ErrorCode::OutOfRange);
    assert_eq!(K2LogLevel::Info.to_string(), "\x1b[36m[[INFO]]\x1b[36m\x1b[0m");
    let entry = K2LogStruct::from(K2Error::new(K2ErrorCode::NotFound, "gone"));
    assert_eq!(entry.message, "ErrorCode: NotFound. gone");
    assert!(entry.level == K2LogLevel::Error);
    let mut logger = Logger::new();
    let debug = K2LogStruct { module: "m".to_string(), level: K2LogLevel::Debug, message: "\x1b[31mhi\x1b[0m".to_string() };
    let routes = logger.log(&debug);
    assert!(routes.console.is_some());
    assert!(routes.file.is_some());
    assert_eq!(routes.file.unwrap().message, "hi");
    assert!(routes.network.is_some());
    let alert = K2LogStruct { module: "m".to_string(), level: K2LogLevel::Alert, message: "x".to_string() };
    let routes = logger.log(&alert);
    assert!(routes.console.is_none());
    assert!(routes.file.is_none());
    assert!(routes.network.is_none());
    logger.set_mode_log_level(
        "m".to_string(),
        LogLevel { console: K2LogLevel::Emergency, file: K2LogLevel::Verbose, network: K2LogLevel::Verbose },
    );
    let routes = logger.log(&alert);
    assert!(routes.console.is_some());
    assert!(routes.file.is_none());
}

#[test]
fn tcp_client_header() {
    let c = TcpIpClient::new("tcp".to_string()).unwrap();
    assert_eq!(c.name, "tcp");
    assert_eq!(c.header.version, "0.1.0");
}

fn templates() -> Vec<String> {
    (0..12).map(|i| format!("part{}", i)).collect()
}

#[test]
fn project_directories() {
    assert_eq!(project_path(&object("lib", "library", &[("path", "/work")])).unwrap(), "/work/lib");
    let e = project_path(&object("lib", "library", &[])).err().unwrap();
    assert!(e.code == K2ErrorCode::NotFound);
    assert_eq!(e.message, "Path properties not found");
}

#[test]
fn library_coder_routes_commands() {
    let e = LibraryCoder::new(&object("lib", "library", &[]), templates()).err().unwrap();
    assert_eq!(e.message, "Path properties not found");
    let mut lib = LibraryCoder::new(&object("lib", "library", &[("path", "/w")]), templates()).unwrap();
    assert_eq!(lib.execute(&lang("new library lib", vec![object("lib", "library", &[])])).unwrap(), "Ok");
    assert_eq!(lib.execute(&lang("new processor lib.Gain", vec![object("lib.Gain", "processor", &[])])).unwrap(), "Ok");
    let e = lib.execute(&lang("new processor lib.Gain", vec![object("lib.Gain", "processor", &[])])).err().unwrap();
    assert!(e.code == K2ErrorCode::AlreadyExists);
    assert_eq!(e.message, "Coder lib.Gain already exists");
    assert_eq!(lib.execute(&lang("new processor lib.Mix", vec![object("lib.Mix", "processor", &[])])).unwrap(), "Ok");
    assert_eq!(lib.execute(&lang("new input lib.Gain.in", vec![object("lib.Gain.in", "input", &[("type", "f64")])])).unwrap(), "Ok");
    let e = lib.execute(&lang("new input lib.Gain.in", vec![object("lib.Gain.in", "input", &[("type", "f64")])])).err().unwrap();
    assert!(e.code == K2ErrorCode::AlreadyExists);
    assert_eq!(e.message, "Object lib.Gain.in already exist");
    let e = lib.execute(&lang("new input lib.Other.in", vec![object("lib.Other.in", "input", &[("type", "f64")])])).err().unwrap();
    assert!(e.code == K2ErrorCode::NotFound);
    assert_eq!(e.message, "Coder lib.Other not found");
    assert_eq!(lib.execute(&lang("code x process body", vec![object("lib.Gain", "processor", &[])])).unwrap(), "Ok");
    let e = lib.execute(&lang("code x process body", vec![object("lib.Nope", "processor", &[])])).err().unwrap();
    assert_eq!(e.message, "Coder lib.Nope not found");
    let e = lib.execute(&lang("connect a b", vec![object("lib.Gain", "processor", &[])])).err().unwrap();
    assert!(e.code == K2ErrorCode::InvalidOperation);
    assert_eq!(e.message, "Command not supported for library");
    assert_eq!(lib.generate(), "pub mod lib.Gain\npub mod lib.Mix");
    assert_eq!(lib.execute(&lang("delete processor lib.Gain", vec![object("lib.Gain", "processor", &[])])).unwrap(), "Ok");
    assert_eq!(lib.generate(), "pub mod lib.Mix");
}

#[test]
fn application_coder_routes_commands() {
    let mut app = ApplicationCoder::new(&object("app", "application", &[("path", "/w")])).unwrap();
    assert_eq!(app.execute(&lang("new application app", vec![object("app", "application", &[])])).unwrap(), "Ok");
    assert_eq!(app.execute(&lang("new stream app.s", vec![object("app.s", "stream", &[])])).unwrap(), "Ok");
    let e = app.execute(&lang("new stream app.s", vec![object("app.s", "stream", &[])])).err().unwrap();
    assert!(e.code == K2ErrorCode::AlreadyExists);
    assert_eq!(e.message, "Coder app.s already exists");
    assert_eq!(app.execute(&lang("new chain app.s.c", vec![object("app.s.c", "chain", &[])])).unwrap(), "Ok");
    let e = app.execute(&lang("new chain app.t.c", vec![object("app.t.c", "chain", &[])])).err().unwrap();
    assert!(e.code == K2ErrorCode::NotFound);
    assert_eq!(e.message, "Coder app.t not found");
    let e = app.execute(&lang("new block app.s.b", vec![object("app.s.b", "block", &[])])).err().unwrap();
    assert_eq!(e.message, "Type field not found");
    let e = app.execute(&lang("code x y z", vec![object("app.s", "stream", &[])])).err().unwrap();
    assert!(e.code == K2ErrorCode::InvalidOperation);
    assert_eq!(e.message, "Command code not supported");
    assert_eq!(app.execute(&lang("delete stream app.s", vec![object("app.s", "stream", &[])])).unwrap(), "Ok");
    let e = app.execute(&lang("new chain app.s.c", vec![object("app.s.c", "chain", &[])])).err().unwrap();
    assert_eq!(e.message, "Coder app.s not found");
    assert_eq!(app.generate().unwrap(), "Ok");
}

#[test]
fn projects_coder_steps() {
    let mut coder = ProjectsCoder::new("coder".to_string());
    let failed: Result<K2LangStruct, K2Error> = Err(K2Error::new(K2ErrorCode::BadFormat, "bad"));
    match coder.process(&failed).unwrap() {
        ProjectStep::Reply(Err(e)) => {
            assert!(e.code == K2ErrorCode::BadFormat);
            assert_eq!(e.message, "bad");
        }
        _ => panic!("the error passes through"),
    }
    let new_lib = lang("new library lib", vec![object("lib", "library", &[("path", "/w")])]);
    assert!(coder.accepts(&new_lib));
    match coder.process(&Ok(new_lib.duplicate())).unwrap() {
        ProjectStep::CreateProject { kind, path } => {
            assert!(kind == ProjectKind::Library);
            assert_eq!(path, "/w/lib");
        }
        _ => panic!("a project is to be created"),
    }
    let e = coder.project_created(&new_lib, Err(K2Error::new(K2ErrorCode::GenericError, "cargo failed")), templates()).err().unwrap();
    assert_eq!(e.message, "cargo failed");
    assert_eq!(coder.project_created(&new_lib, Ok(()), templates()).unwrap().unwrap(), "Ok");
    let e = coder.process(&Ok(new_lib.duplicate())).err().unwrap();
    assert!(e.code == K2ErrorCode::AlreadyExists);
    assert_eq!(e.message, "Coder lib already exists");
    let new_proc = lang("new processor lib.Gain", vec![object("lib.Gain", "processor", &[])]);
    match coder.process(&Ok(new_proc)).unwrap() {
        ProjectStep::Reply(Ok(m)) => assert_eq!(m, "Ok"),
        _ => panic!("the library answers"),
    }
    let e = coder.process(&Ok(lang("new stream zz.s", vec![object("zz.s", "stream", &[])]))).err().unwrap();
    assert!(e.code == K2ErrorCode::NotFound);
    assert_eq!(e.message, "Coder zz not found");
    let no_path = lang("new application app", vec![object("app", "application", &[])]);
    let e = coder.process(&Ok(no_path)).err().unwrap();
    assert_eq!(e.message, "Path properties not found");
    let new_app = lang("new application app", vec![object("app", "application", &[("path", "/w")])]);
    match coder.process(&Ok(new_app.duplicate())).unwrap() {
        ProjectStep::CreateProject { kind, path } => {
            assert!(kind == ProjectKind::Application);
            assert_eq!(path, "/w/app");
        }
        _ => panic!("a project is to be created"),
    }
    assert_eq!(coder.project_created(&new_app, Ok(()), templates()).unwrap().unwrap(), "Ok");
    let delete_lib = lang("delete library lib", vec![object("lib", "library", &[])]);
    assert!(!coder.accepts(&delete_lib));
    let odd = lang("new block app", vec![object("app2", "block", &[("path", "/w")])]);
    assert!(!coder.accepts(&odd));
}

fn first_form_templates() -> Vec<String> {
    (0..11).map(|i| format!("t{}", i)).collect()
}

#[test]
fn streams_coder_objects_and_connections() {
    assert_eq!(StreamsCoder::new("app".to_string(), &object("app", "application", &[])).err().unwrap(), "Path not present");
    let mut app = StreamsCoder::new("app".to_string(), &object("app", "application", &[("path", "/w")])).unwrap();
    assert_eq!(app.get_path(), "/w/src/main.rs");
    assert_eq!(app.get_name(), "app");
    assert_eq!(app.proc_new(&ret("new stream app.s", vec![object("app.s", "stream", &[])])).unwrap(), "Object app.s created");
    assert_eq!(app.proc_new(&ret("new stream app.s", vec![object("app.s", "stream", &[])])).err().unwrap(), "Object app.s already exists");
    assert_eq!(app.proc_new(&ret("new processor app.t.p", vec![object("app.t.p", "processor", &[])])).err().unwrap(), "Stream app.t does not exists");
    assert_eq!(app.proc_new(&ret("new processor app.s.p", vec![object("app.s.p", "processor", &[])])).unwrap(), "Object app.s.p created");
    assert_eq!(app.proc_new(&ret("new processor app.s.q", vec![object("app.s.q", "processor", &[])])).unwrap(), "Object app.s.q created");
    assert_eq!(app.proc_new(&ret("new x x", vec![object("x", "processor", &[])])).err().unwrap(), "Not valid name");
    assert_eq!(app.proc_new(&ret("new x x", vec![])).err().unwrap(), "Missing data");
    let connect = ret("connect app.s.p.out app.s.q.in", vec![object("app.s.p.out", "output", &[]), object("app.s.q.in", "input", &[])]);
    assert_eq!(app.proc_connect(&connect).unwrap(), "app.s.p.out connected to app.s.q.in");
    assert_eq!(app.connection_count(), 1);
    let wrong = ret("connect app.s.p.out app.s.q.in", vec![object("app.s.p.out", "input", &[]), object("app.s.q.in", "input", &[])]);
    assert_eq!(app.proc_connect(&wrong).err().unwrap(), "app.s.p.out is not an output");
    let across = ret("connect app.s.p.out app.u.q.in", vec![object("app.s.p.out", "output", &[]), object("app.u.q.in", "input", &[])]);
    assert_eq!(app.proc_connect(&across).err().unwrap(), "Connection are allowed only inside same stream");
    let missing = ret("connect app.s.z.out app.s.q.in", vec![object("app.s.z.out", "output", &[]), object("app.s.q.in", "input", &[])]);
    assert_eq!(app.proc_connect(&missing).err().unwrap(), "Processor app.s.z not found");
    assert_eq!(app.proc_connect(&ret("connect a", vec![])).err().unwrap(), "Wrong parameter number");
    assert_eq!(app.proc_disconnect(&ret("disconnect app.s.p.out app.s.q.in", vec![])).unwrap(), "Connection removed");
    assert_eq!(app.proc_disconnect(&ret("disconnect nodot x", vec![])).err().unwrap(), "Split err");
    assert_eq!(app.proc_set(&ret("set a.b.c.d 1", vec![object("a.b.c.d", "parameter", &[])])).err().unwrap(), "Object a.b.c.d not settable");
    assert_eq!(app.proc_set(&ret("set a.b.c 1", vec![object("a.b.c", "parameter", &[])])).err().unwrap(), "Invalid name format");
    assert_eq!(app.proc_add(&ret("add a b", vec![])).unwrap(), "Ok");
    assert_eq!(app.proc_exec(&ret("exec a", vec![])).err().unwrap(), "Exec not supported by K2Coder");
    assert_eq!(app.generate().unwrap(), "Application app code generate with success");
    match app.proc_delete(&ret("delete app.s.p", vec![object("app.s.p", "processor", &[])])).unwrap() {
        DeleteStep::Done(m) => assert_eq!(m, "Object app.s.p created"),
        _ => panic!("an object of a stream is forgotten"),
    }
    assert_eq!(app.proc_delete(&ret("delete other", vec![object("other", "application", &[])])).err().unwrap(), "app can not delete other");
    match app.proc_delete(&ret("delete app", vec![object("app", "application", &[])])).unwrap() {
        DeleteStep::RemoveFile(f) => assert_eq!(f, "/w/src/main.rs"),
        _ => panic!("the main file is to be removed"),
    }
    assert_eq!(main_file_removed(&"app".to_string(), true).unwrap(), "Object app created");
    assert_eq!(main_file_removed(&"app".to_string(), false).err().unwrap(), "Error in deleting object file");
}

#[test]
fn processors_coder_members_and_generation() {
    let mut lib = ProcessorsCoder::new("lib".to_string(), &object("lib", "library", &[("path", "/l")]), first_form_templates()).unwrap();
    assert_eq!(lib.get_path(), "/l/src/lib.rs");
    match lib.proc_delete(&ret("delete lib", vec![object("lib", "library", &[])])).unwrap() {
        LibraryDelete::DeleteProject(p) => assert_eq!(p, "/l"),
        _ => panic!("an empty library is removed with its project"),
    }
    assert_eq!(lib.proc_new(&ret("new processor lib.P", vec![object("lib.P", "processor", &[])])).unwrap(), "Processor lib.P successfull created");
    assert_eq!(lib.proc_new(&ret("new processor lib.P", vec![object("lib.P", "processor", &[])])).err().unwrap(), "Object already exist");
    assert_eq!(lib.proc_new(&ret("new processor P", vec![object("P", "processor", &[])])).err().unwrap(), "Invalid object name");
    assert_eq!(lib.proc_new(&ret("new input lib.P.in", vec![object("lib.P.in", "input", &[("type", "f64")])])).unwrap(), "Object lib.P.in created");
    assert_eq!(lib.proc_new(&ret("new input lib.Q.in", vec![object("lib.Q.in", "input", &[("type", "f64")])])).err().unwrap(), "Processor lib.Q not present");
    assert_eq!(lib.proc_new(&ret("new input lib.in", vec![object("lib.in", "input", &[])])).err().unwrap(), "Invalid object name");
    assert_eq!(lib.proc_set(&ret("set lib.P.in 3", vec![object("lib.P.in", "input", &[("value", "3")])])).unwrap(), "Set value for lib.P.in");
    assert_eq!(lib.proc_set(&ret("set lib.Z.in 3", vec![object("lib.Z.in", "input", &[("value", "3")])])).err().unwrap(), "Processor lib.Z not found");
    assert_eq!(lib.proc_add(&ret("add a", vec![])).err().unwrap(), "Add not applicable to library");
    let (text, files) = lib.generate().unwrap();
    assert_eq!(text, "pub mod lib.P");
    assert_eq!(files.len(), 1);
    assert_eq!(files[0].0, "/l/lib.P.rs");
    assert!(files[0].1.contains("impl ProcessorTrait for lib.P {"));
    assert_eq!(lib.proc_delete(&ret("delete lib", vec![object("lib", "library", &[])])).err().unwrap(), "Object lib not found");
    match lib.proc_delete(&ret("delete lib.P.in", vec![object("lib.P.in", "input", &[])])).unwrap() {
        LibraryDelete::Done(m) => assert_eq!(m, "Object lib.P.in deleted with success"),
        _ => panic!("a member is forgotten"),
    }
    let delete_processor = ret("delete lib.P", vec![object("lib.P", "processor", &[])]);
    match lib.proc_delete(&delete_processor).unwrap() {
        LibraryDelete::RemoveFile(f) => assert_eq!(f, "/l/lib.P.rs"),
        _ => panic!("the processor's file is to be removed"),
    }
    assert_eq!(lib.processor_file_removed(&delete_processor, false).err().unwrap(), "Error in deleting object file");
    assert_eq!(lib.processor_file_removed(&delete_processor, true).unwrap(), "Object lib.P deleted with success");
    assert_eq!(lib.generate().unwrap().0, "");
    assert_eq!(project_deleted(&"lib".to_string(), Ok(())).unwrap(), "Object lib deleted with success");
    assert_eq!(project_deleted(&"lib".to_string(), Err("no cargo".to_string())).err().unwrap(), "no cargo");
}

#[test]
fn first_form_coder_routes_commands() {
    let mut coder = FirstFormCoder::new("coder".to_string());
    let new_lib = ret("new library lib", vec![object("lib", "library", &[("path", "/l")])]);
    match coder.execute(&new_lib) {
        FirstFormStep::CreateLibrary { path } => assert_eq!(path, "/l"),
        _ => panic!("the library is to be created"),
    }
    assert_eq!(coder.project_created(&new_lib, Err("cargo failed".to_string()), first_form_templates()).err().unwrap(), "cargo failed");
    assert_eq!(coder.project_created(&new_lib, Ok(()), first_form_templates()).unwrap(), "Library lib successfull created");
    match coder.execute(&new_lib) {
        FirstFormStep::Reply(Err(m)) => assert_eq!(m, "Object already present"),
        _ => panic!("the name is taken"),
    }
    match coder.execute(&ret("new processor lib.P", vec![object("lib.P", "processor", &[])])) {
        FirstFormStep::Reply(Ok(m)) => assert_eq!(m, "Processor lib.P successfull created"),
        _ => panic!("the library answers"),
    }
    match coder.execute(&ret("add lib.P x", vec![])) {
        FirstFormStep::Reply(Err(m)) => assert_eq!(m, "Add not applicable to library"),
        _ => panic!("a library refuses add"),
    }
    match coder.execute(&ret("frob lib.P", vec![])) {
        FirstFormStep::Reply(Err(m)) => assert_eq!(m, "Unknow command"),
        _ => panic!("an unknown word is refused"),
    }
    match coder.execute(&ret("add zz.y", vec![])) {
        FirstFormStep::Reply(Err(m)) => assert_eq!(m, "Not valid object"),
        _ => panic!("no project is named zz"),
    }
    match coder.execute(&ret("new", vec![])) {
        FirstFormStep::Reply(Err(m)) => assert_eq!(m, "Wrong argument number"),
        _ => panic!("new needs a type and a name"),
    }
    match coder.execute(&ret("new application app", vec![object("app", "application", &[])])) {
        FirstFormStep::Reply(Err(m)) => assert_eq!(m, "Path not present"),
        _ => panic!("an application needs a path"),
    }
    let delete_processor = ret("delete lib.P", vec![object("lib.P", "processor", &[])]);
    assert!(coder.accepts(&delete_processor));
    match coder.execute(&delete_processor) {
        FirstFormStep::RemoveFile { path } => assert_eq!(path, "/l/lib.P.rs"),
        _ => panic!("the processor's file is to be removed"),
    }
    assert_eq!(coder.file_removed(&delete_processor, true).unwrap(), "Object lib.P deleted with success");
    assert!(!coder.accepts(&ret("delete lib", vec![object("lib", "library", &[])])));
    let mut refused = ret("add lib.P", vec![]);
    refused.success = false;
    refused.message = "not parsed".to_string();
    match coder.process(&refused) {
        FirstFormStep::Reply(Ok(m)) => assert_eq!(m, "not parsed"),
        _ => panic!("a refused command keeps its message"),
    }
}

#[test]
fn deleting_undoes_creating() {
    let mut lib = LibraryCoder::new(&object("lib", "library", &[("path", "/w")]), templates()).unwrap();
    assert_eq!(lib.execute(&lang("new processor lib.A", vec![object("lib.A", "processor", &[])])).unwrap(), "Ok");
    let before = lib.generate();
    assert_eq!(lib.execute(&lang("new processor lib.B", vec![object("lib.B", "processor", &[])])).unwrap(), "Ok");
    assert_eq!(lib.execute(&lang("delete processor lib.B", vec![object("lib.B", "processor", &[])])).unwrap(), "Ok");
    assert_eq!(lib.generate(), before);

    let mut app = ApplicationCoder::new(&object("app", "application", &[("path", "/w")])).unwrap();
    assert_eq!(app.execute(&lang("new stream app.s", vec![object("app.s", "stream", &[])])).unwrap(), "Ok");
    assert_eq!(app.execute(&lang("delete stream app.s", vec![object("app.s", "stream", &[])])).unwrap(), "Ok");
    let e = app.execute(&lang("new chain app.s.c", vec![object("app.s.c", "chain", &[])])).err().unwrap();
    assert_eq!(e.message, "Coder app.s not found");
    assert_eq!(app.execute(&lang("new stream app.s", vec![object("app.s", "stream", &[])])).unwrap(), "Ok");

    let mut streams = StreamsCoder::new("app".to_string(), &object("app", "application", &[("path", "/w")])).unwrap();
    assert!(streams.proc_new(&ret("new stream app.s", vec![object("app.s", "stream", &[])])).is_ok());
    assert!(streams.proc_new(&ret("new processor app.s.p", vec![object("app.s.p", "processor", &[])])).is_ok());
    assert!(streams.proc_delete(&ret("delete app.s.p", vec![object("app.s.p", "processor", &[])])).is_ok());
    assert_eq!(streams.proc_new(&ret("new processor app.s.p", vec![object("app.s.p", "processor", &[])])).unwrap(), "Object app.s.p created");
    assert!(streams.proc_delete(&ret("delete app.s", vec![object("app.s", "stream", &[])])).is_ok());
    assert_eq!(streams.proc_new(&ret("new stream app.s", vec![object("app.s", "stream", &[])])).unwrap(), "Object app.s created");

    let mut procs = ProcessorsCoder::new("lib".to_string(), &object("lib", "library", &[("path", "/l")]), first_form_templates()).unwrap();
    let add = ret("new processor lib.P", vec![object("lib.P", "processor", &[])]);
    assert!(procs.proc_new(&add).is_ok());
    assert_eq!(procs.processor_file_removed(&add, true).unwrap(), "Object lib.P deleted with success");
    assert_eq!(procs.generate().unwrap().0, "");
    assert_eq!(procs.proc_new(&add).unwrap(), "Processor lib.P successfull created");
}
