use agentcoderepo::eval::{
    check_eval, eval_code, eval_done, eval_reply, file_extension, provision_reply, provision_sprite,
    provisioned, runner_script, sprite_status, EvalProgress, EvalRequest, EvalStage,
    ProvisionProgress, ProvisionStage, SpriteRow,
};
use agentcoderepo::format::TextFormat;
use agentcoderepo::sprites::{
    checkpoint_id, checkpoint_of, exec_result, failure_of, read_event, reply, restored,
    urlencoding_encode, ExecResult, Method, SpriteEvent, SpritesClient, SpritesError,
};
use agentcoderepo::status::Status;

fn s(x: &str) -> String {
    x.to_string()
}

#[test]
fn query_values_are_encoded() {
    assert_eq!(urlencoding_encode("aZ09-_.~"), "aZ09-_.~");
    assert_eq!(urlencoding_encode("a b&c=d/é"), "a%20b%26c%3Dd%2F%C3%A9");
    assert_eq!(urlencoding_encode("?#+% "), "%3F%23%2B%25%20");
    assert_eq!(urlencoding_encode(""), "");
}

#[test]
fn requests_go_to_the_sprite() {
    let client = SpritesClient::new("https://api//", "tok");
    assert_eq!(client.base_url, "https://api");
    assert_eq!(client.auth_header(), "Bearer tok");
    let create = client.create("sp");
    assert!(matches!(create.method, Method::Post));
    assert_eq!(create.url, "https://api/v1/sprites");
    assert_eq!(create.field, Some((s("name"), s("sp"))));
    assert_eq!(client.get("sp").url, "https://api/v1/sprites/sp");
    assert!(matches!(client.delete("sp").method, Method::Delete));
    let write = client.write_file("sp", "/x", b"data");
    assert!(matches!(write.method, Method::Put));
    assert_eq!(write.url, "https://api/v1/sprites/sp/fs/write?path=/x&mkdir=true");
    assert_eq!(write.body, b"data".to_vec());
    assert_eq!(client.read_file("sp", "/x").url, "https://api/v1/sprites/sp/fs/read?path=/x");
    let exec = client.exec("sp", &vec![s("echo"), s("a b")], &vec![(s("K"), s("v&w"))]);
    assert_eq!(
        exec.url,
        "https://api/v1/sprites/sp/exec?tty=false&cmd=echo&cmd=a%20b&env=K=v%26w"
    );
    assert_eq!(
        client.checkpoint("sp", "clean").field,
        Some((s("comment"), s("clean")))
    );
    assert_eq!(
        client.restore("sp", "v1").url,
        "https://api/v1/sprites/sp/checkpoints/v1/restore"
    );
    assert_eq!(client.list_checkpoints("sp").url, "https://api/v1/sprites/sp/checkpoints");
}

#[test]
fn output_of_a_command_is_collected() {
    let body = "{\"type\":\"stdout\",\"data\":\"[1, 2, 3]\\n\"}\n\nraw line\n{\"type\":\"stderr\",\"data\":\"warn\"}\n{\"type\":\"other\"}\n{\"type\":\"exit\",\"exit_code\":3}\n";
    let r = exec_result(body);
    assert_eq!(r.stdout, "[1, 2, 3]\nraw line\n");
    assert_eq!(r.stderr, "warn");
    assert_eq!(r.exit_code, 3);
    let r = exec_result("");
    assert_eq!((r.stdout.as_str(), r.exit_code), ("", -1));
    // A code that is missing or too long.
    assert_eq!(exec_result("{\"type\":\"exit\"}").exit_code, -1);
    assert_eq!(exec_result("{\"type\":\"exit\",\"exit_code\":4294967297}").exit_code, 1);
    assert_eq!(exec_result("{\"type\":\"exit\",\"exit_code\":-2}").exit_code, -2);
    assert_eq!(exec_result("{\"type\":\"exit\",\"exit_code\":2147483648}").exit_code, i32::MIN);
}

#[test]
fn events_are_read_from_lines() {
    let e = read_event("{\"type\":\"exit\",\"data\":7,\"exit_code\":9}").unwrap();
    assert_eq!(e.kind.as_deref(), Some("exit"));
    assert_eq!(e.data, None);
    assert_eq!(e.exit_code, Some(9));
    assert!(read_event("plain").is_none());
    let mut r = ExecResult::started();
    r.record("x", None);
    r.record("", None);
    assert_eq!(r.stdout, "x\n");
}

#[test]
fn checkpoint_is_found() {
    let body = "{\"type\":\"info\",\"data\":\"x\"}\n{\"type\":\"complete\",\"data\":\"Checkpoint v8 created\"}\n";
    assert_eq!(checkpoint_id(body).unwrap(), "v8");
    match checkpoint_id("{\"type\":\"complete\",\"data\":\"Checkpoint created\"}") {
        Err(e) => assert_eq!(
            e.message(),
            "Sprites API error 200: checkpoint created but could not parse ID"
        ),
        Ok(_) => panic!("no checkpoint is named"),
    }
    let event = |kind: &str, data: Option<&str>| {
        Some(SpriteEvent { kind: Some(s(kind)), data: data.map(s), exit_code: None })
    };
    assert_eq!(
        checkpoint_of(event("complete", Some("Checkpoint a b created"))).as_deref(),
        Some("a b")
    );
    assert_eq!(checkpoint_of(event("info", Some("Checkpoint v1 created"))), None);
    assert_eq!(checkpoint_of(None), None);
    assert_eq!(failure_of(event("error", None)).as_deref(), Some("restore failed"));
    assert_eq!(failure_of(event("complete", Some("x"))), None);
}

#[test]
fn failed_restoration_is_told() {
    assert!(restored("{\"type\":\"complete\",\"data\":\"restored\"}\n").is_ok());
    match restored("{\"type\":\"info\"}\n{\"type\":\"error\",\"data\":\"gone\"}\n") {
        Err(e) => assert_eq!(e.message(), "Sprites API error 500: gone"),
        Ok(_) => panic!("the restoration failed"),
    }
    assert_eq!(reply(204, s("b")).unwrap(), "b");
    assert!(matches!(reply(404, s("b")), Err(SpritesError::Api { status: 404, .. })));
    assert!(reply(300, s("b")).is_err());
    assert!(reply(199, s("b")).is_err());
    assert_eq!(SpritesError::Http(s("refused")).message(), "HTTP error: refused");
}

fn request(language: &str, code: &str) -> EvalRequest {
    EvalRequest { language: s(language), code: s(code) }
}

fn sprite(status: &str) -> Option<SpriteRow> {
    Some(SpriteRow { sprite_name: s("sp"), checkpoint_id: s("v1"), status: s(status) })
}

#[test]
fn code_is_run_where_it_can_be() {
    let body = request("python", "print('hello')");
    assert_eq!(check_eval(false, &body).err(), Some(Status::NotImplemented));
    assert_eq!(check_eval(true, &request("brainfuck", "+++")).err(), Some(Status::BadRequest));
    assert_eq!(check_eval(true, &request("python", "")).err(), Some(Status::BadRequest));
    let run = |sprite: Option<SpriteRow>| eval_code(true, &body, Some(s("r1")), sprite);
    assert_eq!(run(None).err(), Some(Status::NotFound));
    assert_eq!(run(sprite("building")).err(), Some(Status::ServiceUnavailable));
    assert_eq!(eval_code(true, &body, None, sprite("ready")).err(), Some(Status::NotFound));
    let plan = run(sprite("ready")).unwrap();
    assert_eq!(plan.code_path, "/home/sprite/eval/agent_code.py");
    assert!(plan.runner.contains("timeout 10 python"));
    assert_eq!(file_extension("haskell"), Some("hs"));
    assert!(runner_script("cpp").unwrap().starts_with("#!/bin/bash\nset -e\n"));
    assert!(runner_script("cobol").is_none());
}

#[test]
fn every_language_runs_the_code_that_was_put_there() {
    for language in ["python", "javascript", "typescript", "rust", "haskell", "c", "cpp"] {
        let script = runner_script(language).unwrap();
        let path = format!("/home/sprite/eval/agent_code.{}", file_extension(language).unwrap());
        assert!(script.contains(&path), "{language}");
        assert!(script.contains("timeout ") && script.contains("nix develop --command"));
    }
    assert_eq!(
        runner_script("rust").unwrap(),
        "#!/bin/bash\nset -e\ncd /home/sprite/repo\nexec nix develop --command bash -c '\n  \
         rustc --edition 2021 -O -o /tmp/eval_bin \\\n    /home/sprite/eval/agent_code.rs 2>&1 && \\\n  \
         timeout 30 /tmp/eval_bin 2>&1\n'\n"
    );
    assert_eq!(
        runner_script("c").unwrap(),
        "#!/bin/bash\nset -e\ncd /home/sprite/repo\nexec nix develop --command bash -c '\n  \
         gcc -I/home/sprite/repo/impl/c -o /tmp/eval_bin \\\n    /home/sprite/eval/agent_code.c \\\n    \
         $(find /home/sprite/repo/impl/c -name \"*.c\" ! -name \"agent_code.c\" 2>/dev/null) && \\\n  \
         timeout 10 /tmp/eval_bin\n'\n"
    );
    assert_eq!(
        runner_script("haskell").unwrap(),
        "#!/bin/bash\nset -e\ncd /home/sprite/repo\nexec nix develop --command bash -c '\n  \
         timeout 10 runghc -i/home/sprite/repo/impl/haskell \\\n    /home/sprite/eval/agent_code.hs\n'\n"
    );
    assert_eq!(
        runner_script("python").unwrap(),
        "#!/bin/bash\nset -e\ncd /home/sprite/repo\nexec nix develop --command bash -c '\n  \
         PYTHONPATH=/home/sprite/repo/impl/python:${PYTHONPATH:-} \\\n  \
         timeout 10 python /home/sprite/eval/agent_code.py\n'\n"
    );
}

#[test]
fn stages_follow_each_other() {
    let client = SpritesClient::new("https://api", "tok");
    let body = request("python", "print(1)");
    let plan = eval_code(true, &body, Some(s("r1")), sprite("ready")).unwrap();
    let mut stage = EvalStage::Restore;
    let mut urls = Vec::new();
    let result = loop {
        let r = plan.request(&client, stage, &body.code);
        urls.push(r.url);
        match eval_reply(stage, 200, s("{\"type\":\"exit\",\"exit_code\":124}")).unwrap() {
            EvalProgress::Next(next) => stage = next,
            EvalProgress::Ran(result) => break result,
        }
    };
    assert_eq!(
        urls,
        vec![
            "https://api/v1/sprites/sp/checkpoints/v1/restore",
            "https://api/v1/sprites/sp/fs/write?path=/home/sprite/eval/agent_code.py&mkdir=true",
            "https://api/v1/sprites/sp/fs/write?path=/home/sprite/eval/run.sh&mkdir=true",
            "https://api/v1/sprites/sp/exec?tty=false&cmd=bash&cmd=%2Fhome%2Fsprite%2Feval%2Frun.sh",
        ]
    );
    assert!(eval_reply(EvalStage::Restore, 500, s("")).is_err());
    assert!(eval_reply(EvalStage::Restore, 200, s("{\"type\":\"error\"}")).is_err());
    let (row, response) = eval_done(plan, body, s("e1"), s("a1"), result, 42);
    assert_eq!(row.status, "timeout");
    assert_eq!(row.code, "print(1)");
    assert_eq!(response.to_text(), "[timeout] exit=124 (42ms)\n");
}

#[test]
fn run_is_shown_with_its_output() {
    let body = request("python", "x");
    let plan = eval_code(true, &body, Some(s("r1")), sprite("ready")).unwrap();
    let result = ExecResult { stdout: s("out"), stderr: s("err"), exit_code: 0 };
    let (_, response) = eval_done(plan, body, s("e1"), s("a1"), result, 7);
    assert_eq!(
        response.to_text(),
        "[completed] exit=0 (7ms)\n--- stdout ---\nout\n--- stderr ---\nerr\n"
    );
}

#[test]
fn owner_provisions_a_sprite() {
    let row = || Some((s("r1"), s("o")));
    assert_eq!(
        provision_sprite(false, "alice", "lib", row(), "o").err(),
        Some(Status::NotImplemented)
    );
    assert_eq!(provision_sprite(true, "alice", "lib", None, "o").err(), Some(Status::NotFound));
    assert_eq!(provision_sprite(true, "alice", "lib", row(), "x").err(), Some(Status::Forbidden));
    let plan = provision_sprite(true, "alice", "lib", row(), "o").unwrap();
    assert_eq!(plan.sprite_name, "acr-alice-lib");
    assert!(plan
        .setup_script
        .contains("git clone https://agentcoderepo.fly.dev/git/alice/lib /home/sprite/repo || true\n"));
    let client = SpritesClient::new("https://api", "tok");
    assert_eq!(
        plan.request(&client, ProvisionStage::Create).field,
        Some((s("name"), s("acr-alice-lib")))
    );
    assert_eq!(
        plan.request(&client, ProvisionStage::WriteSetup).body,
        plan.setup_script.as_bytes().to_vec()
    );
    let reply = |stage: ProvisionStage, body: &str| provision_reply(stage, 200, s(body), true);
    assert!(matches!(
        reply(ProvisionStage::Create, "{}"),
        Ok(ProvisionProgress::Next(ProvisionStage::WriteSetup))
    ));
    assert_eq!(
        provision_reply(ProvisionStage::Create, 200, s("?"), false).err(),
        Some(Status::InternalServerError)
    );
    assert!(matches!(
        reply(ProvisionStage::RunSetup, "{\"type\":\"exit\",\"exit_code\":0}"),
        Ok(ProvisionProgress::Next(ProvisionStage::Checkpoint))
    ));
    assert_eq!(
        reply(ProvisionStage::RunSetup, "{\"type\":\"exit\",\"exit_code\":1}").err(),
        Some(Status::InternalServerError)
    );
    match reply(
        ProvisionStage::Checkpoint,
        "{\"type\":\"complete\",\"data\":\"Checkpoint v1 created\"}",
    ) {
        Ok(ProvisionProgress::Checkpointed(id)) => {
            let ((repo_id, row), response) = provisioned(plan, id);
            assert_eq!(repo_id, "r1");
            assert_eq!(row.status, "ready");
            assert_eq!(response.to_text(), "provisioned: acr-alice-lib (checkpoint: v1)\n");
        }
        _ => panic!("the sprite has a checkpoint"),
    }
    assert_eq!(
        sprite_status(Some((s("sp"), s("ready")))).to_text(),
        "provisioned: sp (ready)\n"
    );
    assert_eq!(sprite_status(None).to_text(), "not provisioned\n");
}
