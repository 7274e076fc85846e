//! Running code in the sandbox of a repository.

use vstd::prelude::*;
use vstd::string::*;
use vstd::utf8::encode_utf8;
use crate::format::TextFormat;
use crate::sprites::{
    command_outcome, command_query, exec_result, first_checkpoint, first_failure, checkpoint_id,
    reply, restored, ExecResult, SpriteRequest, SpritesClient,
};
use crate::status::Status;
use crate::text::{
    dec, dec_int, i64_text, lemma_ended_line, lines, occurs, occurs_at, opt_str, opt_text,
    same_text, split, texts, u64_text,
};

verus! {

// ---------------------------------------------------------------------------
// Types
// ---------------------------------------------------------------------------

#[derive(Debug)]
pub struct EvalRequest {
    pub language: String,
    pub code: String,
}

pub struct EvalResponse {
    pub id: String,
    pub stdout: String,
    pub stderr: String,
    pub exit_code: i32,
    pub duration_ms: u64,
    pub status: String,
}

/// What was written to one of the outputs, under a heading, where something was.
pub open spec fn output_text(heading: Seq<char>, output: Seq<char>) -> Seq<char> {
    if output.len() == 0 {
        seq![]
    } else {
        heading + output + "\n"@
    }
}

fn show_output(heading: &str, output: &str) -> (r: String)
    ensures
        r@ == output_text(heading@, output@),
{
    if output.is_empty() {
        String::new()
    } else {
        let mut s = String::from_str(heading);
        s.append(output);
        s.append("\n");
        s
    }
}

impl TextFormat for EvalResponse {
    open spec fn text(&self) -> Seq<char> {
        "["@ + self.status@ + "] exit="@ + dec_int(self.exit_code as int) + " ("@ + dec(self.duration_ms as nat) + "ms)\n"@ + output_text("--- stdout ---\n"@, self.stdout@) + output_text("--- stderr ---\n"@, self.stderr@)
    }

    open spec fn renders(&self) -> bool {
        true
    }

    fn to_text(&self) -> (r: String) {
        let mut s = String::from_str("[");
        s.append(self.status.as_str());
        s.append("] exit=");
        s.append(i64_text(self.exit_code as i64).as_str());
        s.append(" (");
        s.append(u64_text(self.duration_ms).as_str());
        s.append("ms)\n");
        s.append(show_output("--- stdout ---\n", self.stdout.as_str()).as_str());
        s.append(show_output("--- stderr ---\n", self.stderr.as_str()).as_str());
        s
    }
}

pub struct SpriteStatusResponse {
    pub provisioned: bool,
    pub sprite_name: Option<String>,
    pub status: Option<String>,
}

/// A text, or a question mark where there is none.
pub open spec fn or_unknown(s: Option<Seq<char>>) -> Seq<char> {
    match s {
        Some(t) => t,
        None => "?"@,
    }
}

fn shown(s: &Option<String>) -> (r: String)
    ensures
        r@ == or_unknown(opt_text(*s)),
{
    match s {
        Some(t) => t.clone(),
        None => String::from_str("?"),
    }
}

impl TextFormat for SpriteStatusResponse {
    open spec fn text(&self) -> Seq<char> {
        if self.provisioned {
            "provisioned: "@ + or_unknown(opt_text(self.sprite_name)) + " ("@ + or_unknown(
                opt_text(self.status),
            ) + ")\n"@
        } else {
            "not provisioned\n"@
        }
    }

    open spec fn renders(&self) -> bool {
        true
    }

    fn to_text(&self) -> (r: String) {
        if self.provisioned {
            let mut s = String::from_str("provisioned: ");
            s.append(shown(&self.sprite_name).as_str());
            s.append(" (");
            s.append(shown(&self.status).as_str());
            s.append(")\n");
            s
        } else {
            String::from_str("not provisioned\n")
        }
    }
}

pub struct ProvisionResponse {
    pub sprite_name: String,
    pub checkpoint_id: String,
    pub status: String,
}

impl TextFormat for ProvisionResponse {
    open spec fn text(&self) -> Seq<char> {
        "provisioned: "@ + self.sprite_name@ + " (checkpoint: "@ + self.checkpoint_id@ + ")\n"@
    }

    open spec fn renders(&self) -> bool {
        true
    }

    fn to_text(&self) -> (r: String) {
        let mut s = String::from_str("provisioned: ");
        s.append(self.sprite_name.as_str());
        s.append(" (checkpoint: ");
        s.append(self.checkpoint_id.as_str());
        s.append(")\n");
        s
    }
}

// ---------------------------------------------------------------------------
// Language support
// ---------------------------------------------------------------------------

/// The extension of a language's files.
pub open spec fn extension(language: Seq<char>) -> Option<Seq<char>> {
    if language == "python"@ {
        Some("py"@)
    } else if language == "javascript"@ {
        Some("js"@)
    } else if language == "typescript"@ {
        Some("ts"@)
    } else if language == "rust"@ {
        Some("rs"@)
    } else if language == "haskell"@ {
        Some("hs"@)
    } else if language == "c"@ {
        Some("c"@)
    } else if language == "cpp"@ {
        Some("cpp"@)
    } else {
        None
    }
}

pub fn file_extension(language: &str) -> (r: Option<&'static str>)
    ensures
        opt_str(r) == extension(language@),
{
    if same_text(language, "python") {
        return Some("py");
    }
    if same_text(language, "javascript") {
        return Some("js");
    }
    if same_text(language, "typescript") {
        return Some("ts");
    }
    if same_text(language, "rust") {
        return Some("rs");
    }
    if same_text(language, "haskell") {
        return Some("hs");
    }
    if same_text(language, "c") {
        return Some("c");
    }
    if same_text(language, "cpp") {
        return Some("cpp");
    }
    None
}

/// Where the agent's code is put, up to the extension of its language.
pub const CODE_PATH: &'static str = "/home/sprite/eval/agent_code.";

/// A script that enters the nix dev environment of the repository and runs commands in it.
pub open spec fn in_environment(commands: Seq<char>) -> Seq<char> {
    "#!/bin/bash\nset -e\ncd /home/sprite/repo\nexec "@ + "nix develop --command"@
        + " bash -c '\n"@ + commands + "'\n"@
}

fn enter_environment(commands: &str) -> (r: String)
    ensures
        r@ == in_environment(commands@),
{
    let mut s = String::from_str("#!/bin/bash\nset -e\ncd /home/sprite/repo\nexec ");
    s.append("nix develop --command");
    s.append(" bash -c '\n");
    s.append(commands);
    s.append("'\n");
    s
}

/// A script that hands the agent's code to an interpreter, which has ten seconds.
pub open spec fn interpreted(
    environment: Seq<char>,
    interpreter: Seq<char>,
    ext: Seq<char>,
) -> Seq<char> {
    in_environment(
        environment + "timeout "@ + "10 "@ + interpreter + (CODE_PATH@ + ext) + "\n"@,
    )
}

fn interpret(environment: &str, interpreter: &str, ext: &str) -> (r: String)
    ensures
        r@ == interpreted(environment@, interpreter@, ext@),
{
    let mut path = String::from_str(CODE_PATH);
    path.append(ext);
    let mut s = String::from_str(environment);
    s.append("timeout ");
    s.append("10 ");
    s.append(interpreter);
    s.append(path.as_str());
    s.append("\n");
    enter_environment(s.as_str())
}

/// A script that compiles the agent's code and runs the outcome under a limit.
pub open spec fn compiled(
    compiler: Seq<char>,
    ext: Seq<char>,
    others: Seq<char>,
    limited: Seq<char>,
) -> Seq<char> {
    in_environment(
        compiler + (CODE_PATH@ + ext) + others + " && \\\n  "@ + "timeout "@ + limited + "\n"@,
    )
}

fn compile(compiler: &str, ext: &str, others: &str, limited: &str) -> (r: String)
    ensures
        r@ == compiled(compiler@, ext@, others@, limited@),
{
    let mut path = String::from_str(CODE_PATH);
    path.append(ext);
    let mut s = String::from_str(compiler);
    s.append(path.as_str());
    s.append(others);
    s.append(" && \\\n  ");
    s.append("timeout ");
    s.append(limited);
    s.append("\n");
    enter_environment(s.as_str())
}

pub const PYTHON_ENVIRONMENT: &'static str =
    "  PYTHONPATH=/home/sprite/repo/impl/python:${PYTHONPATH:-} \\\n  ";

pub const JAVASCRIPT_ENVIRONMENT: &'static str =
    "  NODE_PATH=/home/sprite/repo/impl/javascript:${NODE_PATH:-} \\\n  ";

pub const TYPESCRIPT_ENVIRONMENT: &'static str =
    "  NODE_PATH=/home/sprite/repo/impl/typescript:${NODE_PATH:-} \\\n  ";

pub const HASKELL_INTERPRETER: &'static str =
    "runghc -i/home/sprite/repo/impl/haskell \\\n    ";

pub const RUST_COMPILER: &'static str = "  rustc --edition 2021 -O -o /tmp/eval_bin \\\n    ";

pub const C_COMPILER: &'static str =
    "  gcc -I/home/sprite/repo/impl/c -o /tmp/eval_bin \\\n    ";

pub const C_SOURCES: &'static str =
    " \\\n    $(find /home/sprite/repo/impl/c -name \"*.c\" ! -name \"agent_code.c\" 2>/dev/null)";

pub const CPP_COMPILER: &'static str =
    "  g++ -I/home/sprite/repo/impl/cpp -o /tmp/eval_bin \\\n    ";

pub const CPP_SOURCES: &'static str =
    " \\\n    $(find /home/sprite/repo/impl/cpp -name \"*.cpp\" ! -name \"agent_code.cpp\" 2>/dev/null)";

/// The script that enters the nix dev environment and runs the agent's code.
pub open spec fn runner(language: Seq<char>) -> Option<Seq<char>> {
    if language == "python"@ {
        Some(interpreted(PYTHON_ENVIRONMENT@, "python "@, "py"@))
    } else if language == "javascript"@ {
        Some(interpreted(JAVASCRIPT_ENVIRONMENT@, "node "@, "js"@))
    } else if language == "typescript"@ {
        Some(interpreted(TYPESCRIPT_ENVIRONMENT@, "npx tsx "@, "ts"@))
    } else if language == "rust"@ {
        Some(compiled(RUST_COMPILER@, "rs"@, " 2>&1"@, "30 /tmp/eval_bin 2>&1"@))
    } else if language == "haskell"@ {
        Some(interpreted("  "@, HASKELL_INTERPRETER@, "hs"@))
    } else if language == "c"@ {
        Some(compiled(C_COMPILER@, "c"@, C_SOURCES@, "10 /tmp/eval_bin"@))
    } else if language == "cpp"@ {
        Some(compiled(CPP_COMPILER@, "cpp"@, CPP_SOURCES@, "10 /tmp/eval_bin"@))
    } else {
        None
    }
}

/// The runner script for a language.
pub fn runner_script(language: &str) -> (r: Option<String>)
    ensures
        opt_text(r) == runner(language@),
{
    if same_text(language, "python") {
        return Some(interpret(PYTHON_ENVIRONMENT, "python ", "py"));
    }
    if same_text(language, "javascript") {
        return Some(interpret(JAVASCRIPT_ENVIRONMENT, "node ", "js"));
    }
    if same_text(language, "typescript") {
        return Some(interpret(TYPESCRIPT_ENVIRONMENT, "npx tsx ", "ts"));
    }
    if same_text(language, "rust") {
        return Some(compile(RUST_COMPILER, "rs", " 2>&1", "30 /tmp/eval_bin 2>&1"));
    }
    if same_text(language, "haskell") {
        return Some(interpret("  ", HASKELL_INTERPRETER, "hs"));
    }
    if same_text(language, "c") {
        return Some(compile(C_COMPILER, "c", C_SOURCES, "10 /tmp/eval_bin"));
    }
    if same_text(language, "cpp") {
        return Some(compile(CPP_COMPILER, "cpp", CPP_SOURCES, "10 /tmp/eval_bin"));
    }
    None
}

/// A part of a text occurs in it.
proof fn lemma_part_occurs(before: Seq<char>, part: Seq<char>, after: Seq<char>)
    ensures
        occurs(before + part + after, part),
{
    let s = before + part + after;
    assert(s.subrange(before.len() as int, (before.len() + part.len()) as int) =~= part);
    assert(occurs_at(s, part, before.len() as int));
}

proof fn lemma_interpreted_runs_code(
    environment: Seq<char>,
    interpreter: Seq<char>,
    ext: Seq<char>,
)
    ensures
        occurs(interpreted(environment, interpreter, ext), CODE_PATH@ + ext),
        occurs(interpreted(environment, interpreter, ext), "timeout "@),
        occurs(interpreted(environment, interpreter, ext), "nix develop --command"@),
{
    let s = interpreted(environment, interpreter, ext);
    let start = "#!/bin/bash\nset -e\ncd /home/sprite/repo\nexec "@;
    let enter = start + "nix develop --command"@ + " bash -c '\n"@;
    let path = CODE_PATH@ + ext;
    let end = "\n"@ + "'\n"@;
    assert(s =~= (enter + environment + "timeout "@ + "10 "@ + interpreter) + path + end);
    lemma_part_occurs(enter + environment + "timeout "@ + "10 "@ + interpreter, path, end);
    assert(s =~= (enter + environment) + "timeout "@ + ("10 "@ + interpreter + path + end));
    lemma_part_occurs(enter + environment, "timeout "@, "10 "@ + interpreter + path + end);
    let rest = " bash -c '\n"@ + environment + "timeout "@ + "10 "@ + interpreter + path + end;
    assert(s =~= start + "nix develop --command"@ + rest);
    lemma_part_occurs(start, "nix develop --command"@, rest);
}

proof fn lemma_compiled_runs_code(
    compiler: Seq<char>,
    ext: Seq<char>,
    others: Seq<char>,
    limited: Seq<char>,
)
    ensures
        occurs(compiled(compiler, ext, others, limited), CODE_PATH@ + ext),
        occurs(compiled(compiler, ext, others, limited), "timeout "@),
        occurs(compiled(compiler, ext, others, limited), "nix develop --command"@),
{
    let s = compiled(compiler, ext, others, limited);
    let start = "#!/bin/bash\nset -e\ncd /home/sprite/repo\nexec "@;
    let enter = start + "nix develop --command"@ + " bash -c '\n"@;
    let path = CODE_PATH@ + ext;
    let end = limited + "\n"@ + "'\n"@;
    let run = others + " && \\\n  "@ + "timeout "@ + end;
    assert(s =~= (enter + compiler) + path + run);
    lemma_part_occurs(enter + compiler, path, run);
    assert(s =~= (enter + compiler + path + others + " && \\\n  "@) + "timeout "@ + end);
    lemma_part_occurs(enter + compiler + path + others + " && \\\n  "@, "timeout "@, end);
    let rest = " bash -c '\n"@ + compiler + path + run;
    assert(s =~= start + "nix develop --command"@ + rest);
    lemma_part_occurs(start, "nix develop --command"@, rest);
}

/// A language whose files are known has a script that runs them, and the other way round. The
/// script enters the dev environment, names the file that the agent's code is put into, and runs it
/// under a time limit.
pub proof fn law_every_language_has_a_runner(language: Seq<char>)
    ensures
        extension(language) is Some <==> runner(language) is Some,
        extension(language) matches Some(e) ==> {
            let script = runner(language).unwrap();
            &&& occurs(script, CODE_PATH@ + e)
            &&& occurs(script, "timeout "@)
            &&& occurs(script, "nix develop --command"@)
        },
{
    if language == "python"@ {
        lemma_interpreted_runs_code(PYTHON_ENVIRONMENT@, "python "@, "py"@);
    } else if language == "javascript"@ {
        lemma_interpreted_runs_code(JAVASCRIPT_ENVIRONMENT@, "node "@, "js"@);
    } else if language == "typescript"@ {
        lemma_interpreted_runs_code(TYPESCRIPT_ENVIRONMENT@, "npx tsx "@, "ts"@);
    } else if language == "rust"@ {
        lemma_compiled_runs_code(RUST_COMPILER@, "rs"@, " 2>&1"@, "30 /tmp/eval_bin 2>&1"@);
    } else if language == "haskell"@ {
        lemma_interpreted_runs_code("  "@, HASKELL_INTERPRETER@, "hs"@);
    } else if language == "c"@ {
        lemma_compiled_runs_code(C_COMPILER@, "c"@, C_SOURCES@, "10 /tmp/eval_bin"@);
    } else if language == "cpp"@ {
        lemma_compiled_runs_code(CPP_COMPILER@, "cpp"@, CPP_SOURCES@, "10 /tmp/eval_bin"@);
    }
}

proof fn lemma_languages_differ()
    ensures
        "python"@.len() == 6,
        "javascript"@.len() == 10,
        "typescript"@.len() == 10,
        "javascript"@ != "typescript"@,
        "rust"@.len() == 4,
        "haskell"@.len() == 7,
        "c"@.len() == 1,
        "cpp"@.len() == 3,
{
    reveal_strlit("python");
    reveal_strlit("javascript");
    reveal_strlit("typescript");
    reveal_strlit("rust");
    reveal_strlit("haskell");
    reveal_strlit("c");
    reveal_strlit("cpp");
    assert("javascript"@[0] != "typescript"@[0]);
}

proof fn lemma_python_environment()
    ensures
        PYTHON_ENVIRONMENT@ == "  PYTHONPATH="@ + ("/home/sprite/repo/impl/"@ + "python"@)
            + ":${PYTHONPATH:-} \\\n  "@,
{
    reveal_strlit("  PYTHONPATH=/home/sprite/repo/impl/python:${PYTHONPATH:-} \\\n  ");
    reveal_strlit("  PYTHONPATH=");
    reveal_strlit("/home/sprite/repo/impl/");
    reveal_strlit("python");
    reveal_strlit(":${PYTHONPATH:-} \\\n  ");
    assert(PYTHON_ENVIRONMENT@ =~= "  PYTHONPATH="@ + ("/home/sprite/repo/impl/"@ + "python"@)
        + ":${PYTHONPATH:-} \\\n  "@);
}

proof fn lemma_javascript_environment()
    ensures
        JAVASCRIPT_ENVIRONMENT@ == "  NODE_PATH="@ + ("/home/sprite/repo/impl/"@ + "javascript"@)
            + ":${NODE_PATH:-} \\\n  "@,
{
    reveal_strlit("  NODE_PATH=/home/sprite/repo/impl/javascript:${NODE_PATH:-} \\\n  ");
    reveal_strlit("  NODE_PATH=");
    reveal_strlit("/home/sprite/repo/impl/");
    reveal_strlit("javascript");
    reveal_strlit(":${NODE_PATH:-} \\\n  ");
    assert(JAVASCRIPT_ENVIRONMENT@ =~= "  NODE_PATH="@ + ("/home/sprite/repo/impl/"@
        + "javascript"@) + ":${NODE_PATH:-} \\\n  "@);
}

proof fn lemma_typescript_environment()
    ensures
        TYPESCRIPT_ENVIRONMENT@ == "  NODE_PATH="@ + ("/home/sprite/repo/impl/"@ + "typescript"@)
            + ":${NODE_PATH:-} \\\n  "@,
{
    reveal_strlit("  NODE_PATH=/home/sprite/repo/impl/typescript:${NODE_PATH:-} \\\n  ");
    reveal_strlit("  NODE_PATH=");
    reveal_strlit("/home/sprite/repo/impl/");
    reveal_strlit("typescript");
    reveal_strlit(":${NODE_PATH:-} \\\n  ");
    assert(TYPESCRIPT_ENVIRONMENT@ =~= "  NODE_PATH="@ + ("/home/sprite/repo/impl/"@
        + "typescript"@) + ":${NODE_PATH:-} \\\n  "@);
}

proof fn lemma_haskell_interpreter()
    ensures
        HASKELL_INTERPRETER@ == "runghc -i"@ + ("/home/sprite/repo/impl/"@ + "haskell"@)
            + " \\\n    "@,
{
    reveal_strlit("runghc -i/home/sprite/repo/impl/haskell \\\n    ");
    reveal_strlit("runghc -i");
    reveal_strlit("/home/sprite/repo/impl/");
    reveal_strlit("haskell");
    reveal_strlit(" \\\n    ");
    assert(HASKELL_INTERPRETER@ =~= "runghc -i"@ + ("/home/sprite/repo/impl/"@ + "haskell"@)
        + " \\\n    "@);
}

proof fn lemma_compilers()
    ensures
        C_COMPILER@ == "  gcc -I"@ + ("/home/sprite/repo/impl/"@ + "c"@)
            + " -o /tmp/eval_bin \\\n    "@,
        CPP_COMPILER@ == "  g++ -I"@ + ("/home/sprite/repo/impl/"@ + "cpp"@)
            + " -o /tmp/eval_bin \\\n    "@,
        RUST_COMPILER@ == "  rustc --edition 2021 -O"@ + " -o /tmp/eval_bin \\\n    "@,
{
    reveal_strlit("  gcc -I/home/sprite/repo/impl/c -o /tmp/eval_bin \\\n    ");
    reveal_strlit("  g++ -I/home/sprite/repo/impl/cpp -o /tmp/eval_bin \\\n    ");
    reveal_strlit("  rustc --edition 2021 -O -o /tmp/eval_bin \\\n    ");
    reveal_strlit("  gcc -I");
    reveal_strlit("  g++ -I");
    reveal_strlit("  rustc --edition 2021 -O");
    reveal_strlit("/home/sprite/repo/impl/");
    reveal_strlit("c");
    reveal_strlit("cpp");
    reveal_strlit(" -o /tmp/eval_bin \\\n    ");
    assert(C_COMPILER@ =~= "  gcc -I"@ + ("/home/sprite/repo/impl/"@ + "c"@)
        + " -o /tmp/eval_bin \\\n    "@);
    assert(CPP_COMPILER@ =~= "  g++ -I"@ + ("/home/sprite/repo/impl/"@ + "cpp"@)
        + " -o /tmp/eval_bin \\\n    "@);
    assert(RUST_COMPILER@ =~= "  rustc --edition 2021 -O"@ + " -o /tmp/eval_bin \\\n    "@);
}

proof fn lemma_c_sources()
    ensures
        C_SOURCES@ == " \\\n    $(find "@ + ("/home/sprite/repo/impl/"@ + "c"@)
            + " -name \"*.c\" ! -name \"agent_code.c\" 2>/dev/null)"@,
{
    reveal_strlit(
        " \\\n    $(find /home/sprite/repo/impl/c -name \"*.c\" ! -name \"agent_code.c\" 2>/dev/null)",
    );
    reveal_strlit(" \\\n    $(find ");
    reveal_strlit("/home/sprite/repo/impl/");
    reveal_strlit("c");
    reveal_strlit(" -name \"*.c\" ! -name \"agent_code.c\" 2>/dev/null)");
    assert(C_SOURCES@ =~= " \\\n    $(find "@ + ("/home/sprite/repo/impl/"@ + "c"@)
        + " -name \"*.c\" ! -name \"agent_code.c\" 2>/dev/null)"@);
}

proof fn lemma_cpp_sources()
    ensures
        CPP_SOURCES@ == " \\\n    $(find "@ + ("/home/sprite/repo/impl/"@ + "cpp"@)
            + " -name \"*.cpp\" ! -name \"agent_code.cpp\" 2>/dev/null)"@,
{
    reveal_strlit(
        " \\\n    $(find /home/sprite/repo/impl/cpp -name \"*.cpp\" ! -name \"agent_code.cpp\" 2>/dev/null)",
    );
    reveal_strlit(" \\\n    $(find ");
    reveal_strlit("/home/sprite/repo/impl/");
    reveal_strlit("cpp");
    reveal_strlit(" -name \"*.cpp\" ! -name \"agent_code.cpp\" 2>/dev/null)");
    assert(CPP_SOURCES@ =~= " \\\n    $(find "@ + ("/home/sprite/repo/impl/"@ + "cpp"@)
        + " -name \"*.cpp\" ! -name \"agent_code.cpp\" 2>/dev/null)"@);
}

/// A script that runs some commands in the dev environment of the repository.
pub open spec fn script_with(commands: Seq<char>) -> Seq<char> {
    "#!/bin/bash\nset -e\ncd /home/sprite/repo\nexec "@ + "nix develop --command"@ + " bash -c '\n"@
        + commands + "'\n"@
}

proof fn lemma_interpreted(environment: Seq<char>, interpreter: Seq<char>, ext: Seq<char>)
    ensures
        interpreted(environment, interpreter, ext) == script_with(
            environment + ("timeout "@ + "10 "@ + interpreter + ("/home/sprite/eval/agent_code."@ + ext)
                + "\n"@),
        ),
{
    let run = "timeout "@ + "10 "@ + interpreter + ("/home/sprite/eval/agent_code."@ + ext) + "\n"@;
    assert(environment + "timeout "@ + "10 "@ + interpreter + (CODE_PATH@ + ext) + "\n"@
        =~= environment + run);
}

proof fn lemma_compiled(
    compiler: Seq<char>,
    ext: Seq<char>,
    others: Seq<char>,
    limited: Seq<char>,
)
    ensures
        compiled(compiler, ext, others, limited) == script_with(
            compiler + ("/home/sprite/eval/agent_code."@ + ext) + others + (" && \\\n  "@
                + "timeout "@ + limited + "\n"@),
        ),
{
    let run = " && \\\n  "@ + "timeout "@ + limited + "\n"@;
    assert(compiler + (CODE_PATH@ + ext) + others + " && \\\n  "@ + "timeout "@ + limited + "\n"@
        =~= compiler + (CODE_PATH@ + ext) + others + run);
}

/// The agent's code is handed to an interpreter or compiler of its own language, which also finds
/// what the repository has in that language, and to none of another: Python code goes to `python`,
/// JavaScript to `node`, TypeScript to `npx tsx`, Haskell to `runghc`, C to `gcc`, C++ to `g++`, and
/// Rust to `rustc`. What a compiler makes of it is run once that has succeeded. Nothing else is run,
/// and all of it in the dev environment.
pub proof fn law_code_goes_to_its_own_language(language: Seq<char>)
    ensures
        ({
            let script = runner(language).unwrap();
            let code = "/home/sprite/eval/agent_code."@;
            let library = "/home/sprite/repo/impl/"@;
            &&& language == "python"@ ==> script == script_with(
                ("  PYTHONPATH="@ + (library + "python"@) + ":${PYTHONPATH:-} \\\n  "@) + ("timeout "@
                    + "10 "@ + "python "@ + (code + "py"@) + "\n"@),
            )
            &&& language == "javascript"@ ==> script == script_with(
                ("  NODE_PATH="@ + (library + "javascript"@) + ":${NODE_PATH:-} \\\n  "@) + (
                "timeout "@ + "10 "@ + "node "@ + (code + "js"@) + "\n"@),
            )
            &&& language == "typescript"@ ==> script == script_with(
                ("  NODE_PATH="@ + (library + "typescript"@) + ":${NODE_PATH:-} \\\n  "@) + (
                "timeout "@ + "10 "@ + "npx tsx "@ + (code + "ts"@) + "\n"@),
            )
            &&& language == "haskell"@ ==> script == script_with(
                "  "@ + ("timeout "@ + "10 "@ + ("runghc -i"@ + (library + "haskell"@)
                    + " \\\n    "@) + (code + "hs"@) + "\n"@),
            )
            &&& language == "rust"@ ==> script == script_with(
                ("  rustc --edition 2021 -O"@ + " -o /tmp/eval_bin \\\n    "@) + (code + "rs"@)
                    + " 2>&1"@ + (" && \\\n  "@ + "timeout "@ + "30 /tmp/eval_bin 2>&1"@ + "\n"@),
            )
            &&& language == "c"@ ==> script == script_with(
                ("  gcc -I"@ + (library + "c"@) + " -o /tmp/eval_bin \\\n    "@) + (code + "c"@) + (
                " \\\n    $(find "@ + (library + "c"@)
                    + " -name \"*.c\" ! -name \"agent_code.c\" 2>/dev/null)"@) + (" && \\\n  "@
                    + "timeout "@ + "10 /tmp/eval_bin"@ + "\n"@),
            )
            &&& language == "cpp"@ ==> script == script_with(
                ("  g++ -I"@ + (library + "cpp"@) + " -o /tmp/eval_bin \\\n    "@) + (code + "cpp"@)
                    + (" \\\n    $(find "@ + (library + "cpp"@)
                    + " -name \"*.cpp\" ! -name \"agent_code.cpp\" 2>/dev/null)"@) + (" && \\\n  "@
                    + "timeout "@ + "10 /tmp/eval_bin"@ + "\n"@),
            )
        }),
{
    lemma_languages_differ();
    if language == "python"@ {
        lemma_python_environment();
        lemma_interpreted(PYTHON_ENVIRONMENT@, "python "@, "py"@);
    } else if language == "javascript"@ {
        lemma_javascript_environment();
        lemma_interpreted(JAVASCRIPT_ENVIRONMENT@, "node "@, "js"@);
    } else if language == "typescript"@ {
        lemma_typescript_environment();
        lemma_interpreted(TYPESCRIPT_ENVIRONMENT@, "npx tsx "@, "ts"@);
    } else if language == "haskell"@ {
        lemma_haskell_interpreter();
        lemma_interpreted("  "@, HASKELL_INTERPRETER@, "hs"@);
    } else if language == "rust"@ {
        lemma_compilers();
        lemma_compiled(RUST_COMPILER@, "rs"@, " 2>&1"@, "30 /tmp/eval_bin 2>&1"@);
    } else if language == "c"@ {
        lemma_compilers();
        lemma_c_sources();
        lemma_compiled(C_COMPILER@, "c"@, C_SOURCES@, "10 /tmp/eval_bin"@);
    } else if language == "cpp"@ {
        lemma_compilers();
        lemma_cpp_sources();
        lemma_compiled(CPP_COMPILER@, "cpp"@, CPP_SOURCES@, "10 /tmp/eval_bin"@);
    }
}

/// Code is put into a file whose name the tools of its language know: each extension belongs to one
/// language, and a text that is no such language has none.
pub proof fn law_extensions_tell_languages_apart(language: Seq<char>, other: Seq<char>)
    ensures
        extension(language) matches Some(e) ==> {
            ||| language == "python"@ && e == "py"@
            ||| language == "javascript"@ && e == "js"@
            ||| language == "typescript"@ && e == "ts"@
            ||| language == "rust"@ && e == "rs"@
            ||| language == "haskell"@ && e == "hs"@
            ||| language == "c"@ && e == "c"@
            ||| language == "cpp"@ && e == "cpp"@
        },
        extension(language) is Some && extension(language) == extension(other) ==> language == other,
        extension("python"@) is Some && extension("javascript"@) is Some && extension(
            "typescript"@,
        ) is Some && extension("rust"@) is Some && extension("haskell"@) is Some && extension(
            "c"@,
        ) is Some && extension("cpp"@) is Some,
{
    reveal_strlit("py");
    reveal_strlit("js");
    reveal_strlit("ts");
    reveal_strlit("rs");
    reveal_strlit("hs");
    reveal_strlit("c");
    reveal_strlit("cpp");
    assert("py"@[0] == 'p' && "js"@[0] == 'j' && "ts"@[0] == 't' && "rs"@[0] == 'r' && "hs"@[0]
        == 'h');
    assert("c"@.len() == 1 && "cpp"@.len() == 3 && "py"@.len() == 2);
}

// ---------------------------------------------------------------------------
// Running code
// ---------------------------------------------------------------------------

/// The sprite of a repository.
#[derive(Debug)]
pub struct SpriteRow {
    pub sprite_name: String,
    pub checkpoint_id: String,
    pub status: String,
}

/// What is to be run, and where.
#[derive(Debug)]
pub struct EvalPlan {
    pub repo_id: String,
    pub sprite_name: String,
    pub checkpoint_id: String,
    pub code_path: String,
    pub runner: String,
}

/// Whether code can be run at all: there have to be sprites, the language has to be known, and there
/// has to be code.
pub open spec fn eval_fault(configured: bool, body: EvalRequest) -> Option<Status> {
    if !configured {
        Some(Status::NotImplemented)
    } else if extension(body.language@) is None || body.code@.len() == 0 {
        Some(Status::BadRequest)
    } else {
        None
    }
}

/// Whether code can be run, before anything is looked up.
pub fn check_eval(configured: bool, body: &EvalRequest) -> (r: Result<(), Status>)
    ensures
        match eval_fault(configured, *body) {
            Some(e) => r matches Err(f) && f == e,
            None => r is Ok,
        },
{
    if !configured {
        return Err(Status::NotImplemented);
    }
    if file_extension(body.language.as_str()).is_none() {
        return Err(Status::BadRequest);
    }
    if body.code.as_str().is_empty() {
        return Err(Status::BadRequest);
    }
    Ok(())
}

/// What is to be run for a request. The repository has to exist, and to have a sprite that is ready.
pub fn eval_code(
    configured: bool,
    body: &EvalRequest,
    repo_id: Option<String>,
    sprite: Option<SpriteRow>,
) -> (r: Result<EvalPlan, Status>)
    ensures
        match eval_fault(configured, *body) {
            Some(e) => r matches Err(f) && f == e,
            None => match (repo_id, sprite) {
                (Some(id), Some(s)) => if s.status@ != "ready"@ {
                    r matches Err(f) && f == Status::ServiceUnavailable
                } else {
                    r matches Ok(p) && {
                        &&& p.repo_id == id
                        &&& p.sprite_name == s.sprite_name
                        &&& p.checkpoint_id == s.checkpoint_id
                        &&& p.code_path@ == CODE_PATH@ + extension(
                            body.language@,
                        ).unwrap()
                        &&& p.runner@ == runner(body.language@).unwrap()
                    }
                },
                _ => r matches Err(f) && f == Status::NotFound,
            },
        },
{
    match check_eval(configured, body) {
        Ok(_) => {},
        Err(e) => {
            return Err(e);
        },
    }
    let repo_id = match repo_id {
        Some(id) => id,
        None => {
            return Err(Status::NotFound);
        },
    };
    let sprite = match sprite {
        Some(s) => s,
        None => {
            return Err(Status::NotFound);
        },
    };
    if !same_text(sprite.status.as_str(), "ready") {
        return Err(Status::ServiceUnavailable);
    }
    proof {
        law_every_language_has_a_runner(body.language@);
    }
    match (
        file_extension(body.language.as_str()),
        runner_script(body.language.as_str()),
    ) {
        (Some(ext), Some(runner)) => {
            let mut code_path = String::from_str(CODE_PATH);
            code_path.append(ext);
            Ok(
                EvalPlan {
                    repo_id,
                    sprite_name: sprite.sprite_name,
                    checkpoint_id: sprite.checkpoint_id,
                    code_path,
                    runner,
                },
            )
        },
        _ => Err(Status::BadRequest),
    }
}

/// What is done with the sprite, one after the other.
#[derive(Debug, Clone, Copy)]
pub enum EvalStage {
    Restore,
    WriteCode,
    WriteRunner,
    Run,
}

/// The stage after one.
pub open spec fn stage_after(stage: EvalStage) -> Option<EvalStage> {
    match stage {
        EvalStage::Restore => Some(EvalStage::WriteCode),
        EvalStage::WriteCode => Some(EvalStage::WriteRunner),
        EvalStage::WriteRunner => Some(EvalStage::Run),
        EvalStage::Run => None,
    }
}

/// The command that runs a script.
pub open spec fn bash(script: Seq<char>) -> Seq<Seq<char>> {
    seq!["bash"@, script]
}

fn bash_command(script: &str) -> (r: Vec<String>)
    ensures
        texts(r@) == bash(script@),
{
    let mut v: Vec<String> = Vec::new();
    v.push(String::from_str("bash"));
    v.push(String::from_str(script));
    proof {
        assert(texts(v@) =~= bash(script@));
    }
    v
}

impl EvalPlan {
    /// The request of a stage: the sprite is brought back to its clean checkpoint, the code and the
    /// script that runs it are written, and the script is run.
    pub fn request(&self, client: &SpritesClient, stage: EvalStage, code: &str) -> (r: SpriteRequest)
        ensures
            ({
                let sprite = client.base_url@ + "/v1/sprites/"@ + self.sprite_name@;
                match stage {
                    EvalStage::Restore => {
                        &&& r.method is Post
                        &&& r.url@ == sprite + "/checkpoints/"@ + self.checkpoint_id@ + "/restore"@
                        &&& r.body@ == Seq::<u8>::empty()
                    },
                    EvalStage::WriteCode => {
                        &&& r.method is Put
                        &&& r.url@ == sprite + "/fs/write?path="@ + self.code_path@ + "&mkdir=true"@
                        &&& r.body@ == encode_utf8(code@)
                    },
                    EvalStage::WriteRunner => {
                        &&& r.method is Put
                        &&& r.url@ == sprite + "/fs/write?path="@ + "/home/sprite/eval/run.sh"@
                            + "&mkdir=true"@
                        &&& r.body@ == encode_utf8(self.runner@)
                    },
                    EvalStage::Run => {
                        &&& r.method is Post
                        &&& r.url@ == sprite + "/exec?tty=false"@ + command_query(
                            bash("/home/sprite/eval/run.sh"@),
                        )
                        &&& r.body@ == Seq::<u8>::empty()
                    },
                }
            }),
            r.field is None,
    {
        let name = self.sprite_name.as_str();
        match stage {
            EvalStage::Restore => client.restore(name, self.checkpoint_id.as_str()),
            EvalStage::WriteCode => client.write_file(
                name,
                self.code_path.as_str(),
                code.as_bytes(),
            ),
            EvalStage::WriteRunner => client.write_file(
                name,
                "/home/sprite/eval/run.sh",
                self.runner.as_str().as_bytes(),
            ),
            EvalStage::Run => {
                let env: Vec<(String, String)> = Vec::new();
                let r = client.exec(name, &bash_command("/home/sprite/eval/run.sh"), &env);
                proof {
                    let q = command_query(bash("/home/sprite/eval/run.sh"@));
                    assert(r.url@ =~= client.base_url@ + "/v1/sprites/"@ + self.sprite_name@
                        + "/exec?tty=false"@ + q);
                }
                r
            },
        }
    }
}

/// What a stage led to.
#[derive(Debug)]
pub enum EvalProgress {
    /// The next stage is due.
    Next(EvalStage),
    /// The script has run.
    Ran(ExecResult),
}

/// Go on after the reply to the request of a stage. A reply that tells of a failure ends it.
pub fn eval_reply(stage: EvalStage, status: u16, body: String) -> (r: Result<EvalProgress, Status>)
    ensures
        if !(200 <= status < 300) || (stage is Restore && first_failure(lines(body@)) is Some) {
            r matches Err(e) && e == Status::InternalServerError
        } else {
            match stage_after(stage) {
                Some(next) => r matches Ok(EvalProgress::Next(s)) && s == next,
                None => r matches Ok(EvalProgress::Ran(x)) && x@ == command_outcome(lines(body@)),
            }
        },
{
    let body = match reply(status, body) {
        Ok(b) => b,
        Err(_) => {
            return Err(Status::InternalServerError);
        },
    };
    match stage {
        EvalStage::Restore => match restored(body.as_str()) {
            Ok(_) => Ok(EvalProgress::Next(EvalStage::WriteCode)),
            Err(_) => Err(Status::InternalServerError),
        },
        EvalStage::WriteCode => Ok(EvalProgress::Next(EvalStage::WriteRunner)),
        EvalStage::WriteRunner => Ok(EvalProgress::Next(EvalStage::Run)),
        EvalStage::Run => Ok(EvalProgress::Ran(exec_result(body.as_str()))),
    }
}

/// How a run ended; `timeout` ends with a code of its own.
pub open spec fn run_status(exit_code: int) -> Seq<char> {
    if exit_code == 0 {
        "completed"@
    } else if exit_code == 124 {
        "timeout"@
    } else {
        "failed"@
    }
}

/// A run as it is stored.
#[derive(Debug)]
pub struct EvalRun {
    pub id: String,
    pub repo_id: String,
    pub agent_id: String,
    pub language: String,
    pub code: String,
    pub stdout: String,
    pub stderr: String,
    pub exit_code: i32,
    pub duration_ms: u64,
    pub status: String,
}

/// What is stored of a run, and the answer.
pub fn eval_done(
    plan: EvalPlan,
    body: EvalRequest,
    id: String,
    agent_id: String,
    result: ExecResult,
    duration_ms: u64,
) -> (r: (EvalRun, EvalResponse))
    ensures
        r.0.id@ == id@,
        r.0.repo_id == plan.repo_id,
        r.0.agent_id == agent_id,
        r.0.language == body.language,
        r.0.code == body.code,
        r.0.stdout@ == result@.stdout,
        r.0.stderr@ == result@.stderr,
        r.0.exit_code as int == result@.exit_code,
        r.0.duration_ms == duration_ms,
        r.0.status@ == run_status(result@.exit_code),
        r.1.id@ == id@,
        r.1.stdout@ == result@.stdout,
        r.1.stderr@ == result@.stderr,
        r.1.exit_code as int == result@.exit_code,
        r.1.duration_ms == duration_ms,
        r.1.status@ == run_status(result@.exit_code),
{
    let status = if result.exit_code == 0 {
        String::from_str("completed")
    } else if result.exit_code == 124 {
        String::from_str("timeout")
    } else {
        String::from_str("failed")
    };
    let row = EvalRun {
        id: id.clone(),
        repo_id: plan.repo_id,
        agent_id,
        language: body.language,
        code: body.code,
        stdout: result.stdout.clone(),
        stderr: result.stderr.clone(),
        exit_code: result.exit_code,
        duration_ms,
        status: status.clone(),
    };
    let response = EvalResponse {
        id,
        stdout: result.stdout,
        stderr: result.stderr,
        exit_code: result.exit_code,
        duration_ms,
        status,
    };
    (row, response)
}

/// Whether a stage comes before the script is run.
pub open spec fn stages_left(stage: EvalStage) -> nat {
    match stage {
        EvalStage::Restore => 3,
        EvalStage::WriteCode => 2,
        EvalStage::WriteRunner => 1,
        EvalStage::Run => 0,
    }
}

/// From the restoration every stage leads one further, and running comes last: code is run only in a
/// sprite that was brought back to its clean checkpoint before.
pub proof fn law_code_runs_in_a_clean_sprite(stage: EvalStage)
    ensures
        match stage_after(stage) {
            Some(next) => stages_left(next) == stages_left(stage) - 1 && !(next is Restore),
            None => stage is Run,
        },
{
}

// ---------------------------------------------------------------------------
// Provisioning
// ---------------------------------------------------------------------------

/// The sprite of a repository and the script that sets it up.
#[derive(Debug)]
pub struct ProvisionPlan {
    pub repo_id: String,
    pub sprite_name: String,
    pub setup_script: String,
}

/// The script that sets a sprite up for a repository.
pub open spec fn setup_script(owner: Seq<char>, repo: Seq<char>) -> Seq<char> {
    SETUP_START@ + "https://agentcoderepo.fly.dev/git/"@ + owner + "/"@ + repo + SETUP_END@
}

pub const SETUP_START: &'static str = "#!/bin/bash\n\
set -ex\n\
# Clone the repo\n\
git clone ";

pub const SETUP_END: &'static str = " /home/sprite/repo || true\n\
cd /home/sprite/repo\n\
# Create eval directory\n\
mkdir -p /home/sprite/eval\n\
# Enter nix environment to cache dependencies\n\
if [ -f flake.nix ]; then\n\
\x20   nix develop --command echo \"nix environment ready\"\n\
fi\n\
echo \"setup complete\"\n";

/// Set a sprite up for a repository, which has to exist. Only its owner may.
pub fn provision_sprite(
    configured: bool,
    owner: &str,
    repo: &str,
    row: Option<(String, String)>,
    agent_id: &str,
) -> (r: Result<ProvisionPlan, Status>)
    ensures
        if !configured {
            r matches Err(e) && e == Status::NotImplemented
        } else {
            match row {
                None => r matches Err(e) && e == Status::NotFound,
                Some(p) => if p.1@ != agent_id@ {
                    r matches Err(e) && e == Status::Forbidden
                } else {
                    r matches Ok(q) && {
                        &&& q.repo_id == p.0
                        &&& q.sprite_name@ == "acr-"@ + owner@ + "-"@ + repo@
                        &&& q.setup_script@ == setup_script(owner@, repo@)
                    }
                },
            }
        },
{
    if !configured {
        return Err(Status::NotImplemented);
    }
    match row {
        None => Err(Status::NotFound),
        Some((repo_id, owner_id)) => {
            if !same_text(owner_id.as_str(), agent_id) {
                return Err(Status::Forbidden);
            }
            let mut sprite_name = String::from_str("acr-");
            sprite_name.append(owner);
            sprite_name.append("-");
            sprite_name.append(repo);
            let mut script = String::from_str(SETUP_START);
            script.append("https://agentcoderepo.fly.dev/git/");
            script.append(owner);
            script.append("/");
            script.append(repo);
            script.append(SETUP_END);
            Ok(ProvisionPlan { repo_id, sprite_name, setup_script: script })
        },
    }
}

/// What is done with a new sprite, one after the other.
#[derive(Debug, Clone, Copy)]
pub enum ProvisionStage {
    Create,
    WriteSetup,
    RunSetup,
    Checkpoint,
}

/// What a stage led to.
#[derive(Debug)]
pub enum ProvisionProgress {
    Next(ProvisionStage),
    /// The checkpoint of the clean state.
    Checkpointed(String),
}

impl ProvisionPlan {
    /// The request of a stage: the sprite is created, its setup script is written and run, and its
    /// state is kept.
    pub fn request(&self, client: &SpritesClient, stage: ProvisionStage) -> (r: SpriteRequest)
        ensures
            ({
                let sprites = client.base_url@ + "/v1/sprites"@;
                let sprite = client.base_url@ + "/v1/sprites/"@ + self.sprite_name@;
                match stage {
                    ProvisionStage::Create => {
                        &&& r.method is Post
                        &&& r.url@ == sprites
                        &&& r.field matches Some(f) && f.0@ == "name"@ && f.1@ == self.sprite_name@
                        &&& r.body@ == Seq::<u8>::empty()
                    },
                    ProvisionStage::WriteSetup => {
                        &&& r.method is Put
                        &&& r.url@ == sprite + "/fs/write?path="@ + "/home/sprite/setup.sh"@
                            + "&mkdir=true"@
                        &&& r.field is None
                        &&& r.body@ == encode_utf8(self.setup_script@)
                    },
                    ProvisionStage::RunSetup => {
                        &&& r.method is Post
                        &&& r.url@ == sprite + "/exec?tty=false"@ + command_query(
                            bash("/home/sprite/setup.sh"@),
                        )
                        &&& r.field is None
                        &&& r.body@ == Seq::<u8>::empty()
                    },
                    ProvisionStage::Checkpoint => {
                        &&& r.method is Post
                        &&& r.url@ == sprite + "/checkpoint"@
                        &&& r.field matches Some(f) && f.0@ == "comment"@ && f.1@
                            == "clean state after provisioning"@
                        &&& r.body@ == Seq::<u8>::empty()
                    },
                }
            }),
    {
        let name = self.sprite_name.as_str();
        match stage {
            ProvisionStage::Create => client.create(name),
            ProvisionStage::WriteSetup => client.write_file(
                name,
                "/home/sprite/setup.sh",
                self.setup_script.as_str().as_bytes(),
            ),
            ProvisionStage::RunSetup => {
                let env: Vec<(String, String)> = Vec::new();
                let r = client.exec(name, &bash_command("/home/sprite/setup.sh"), &env);
                proof {
                    let q = command_query(bash("/home/sprite/setup.sh"@));
                    assert(r.url@ =~= client.base_url@ + "/v1/sprites/"@ + self.sprite_name@
                        + "/exec?tty=false"@ + q);
                }
                r
            },
            ProvisionStage::Checkpoint => client.checkpoint(name, "clean state after provisioning"),
        }
    }
}

/// Go on after the reply to the request of a stage. The reply to a creation has to describe a sprite;
/// whether it does is given. A setup script that does not end with success ends it.
pub fn provision_reply(stage: ProvisionStage, status: u16, body: String, describes_sprite: bool) -> (r:
    Result<ProvisionProgress, Status>)
    ensures
        if !(200 <= status < 300) {
            r matches Err(e) && e == Status::InternalServerError
        } else {
            match stage {
                ProvisionStage::Create => if describes_sprite {
                    r matches Ok(ProvisionProgress::Next(s)) && s is WriteSetup
                } else {
                    r matches Err(e) && e == Status::InternalServerError
                },
                ProvisionStage::WriteSetup => r matches Ok(ProvisionProgress::Next(s))
                    && s is RunSetup,
                ProvisionStage::RunSetup => if command_outcome(lines(body@)).exit_code != 0 {
                    r matches Err(e) && e == Status::InternalServerError
                } else {
                    r matches Ok(ProvisionProgress::Next(s)) && s is Checkpoint
                },
                ProvisionStage::Checkpoint => match first_checkpoint(lines(body@)) {
                    Some(id) => r matches Ok(ProvisionProgress::Checkpointed(c)) && c@ == id,
                    None => r matches Err(e) && e == Status::InternalServerError,
                },
            }
        },
{
    let body = match reply(status, body) {
        Ok(b) => b,
        Err(_) => {
            return Err(Status::InternalServerError);
        },
    };
    match stage {
        ProvisionStage::Create => if describes_sprite {
            Ok(ProvisionProgress::Next(ProvisionStage::WriteSetup))
        } else {
            Err(Status::InternalServerError)
        },
        ProvisionStage::WriteSetup => Ok(ProvisionProgress::Next(ProvisionStage::RunSetup)),
        ProvisionStage::RunSetup => {
            let result = exec_result(body.as_str());
            if result.exit_code != 0 {
                Err(Status::InternalServerError)
            } else {
                Ok(ProvisionProgress::Next(ProvisionStage::Checkpoint))
            }
        },
        ProvisionStage::Checkpoint => match checkpoint_id(body.as_str()) {
            Ok(id) => Ok(ProvisionProgress::Checkpointed(id)),
            Err(_) => Err(Status::InternalServerError),
        },
    }
}

/// What is stored of the sprite of a repository, and the answer.
pub fn provisioned(plan: ProvisionPlan, checkpoint_id: String) -> (r: (
    (String, SpriteRow),
    ProvisionResponse,
))
    ensures
        r.0.0 == plan.repo_id,
        r.0.1.sprite_name@ == plan.sprite_name@,
        r.0.1.checkpoint_id@ == checkpoint_id@,
        r.0.1.status@ == "ready"@,
        r.1.sprite_name@ == plan.sprite_name@,
        r.1.checkpoint_id@ == checkpoint_id@,
        r.1.status@ == "ready"@,
{
    let row = SpriteRow {
        sprite_name: plan.sprite_name.clone(),
        checkpoint_id: checkpoint_id.clone(),
        status: String::from_str("ready"),
    };
    let response = ProvisionResponse {
        sprite_name: plan.sprite_name,
        checkpoint_id,
        status: String::from_str("ready"),
    };
    ((plan.repo_id, row), response)
}

/// The sprite of a repository, where there is one.
pub fn sprite_status(row: Option<(String, String)>) -> (r: SpriteStatusResponse)
    ensures
        r.provisioned == row is Some,
        match row {
            Some(p) => r.sprite_name == Some(p.0) && r.status == Some(p.1),
            None => r.sprite_name is None && r.status is None,
        },
{
    match row {
        Some((name, status)) => SpriteStatusResponse {
            provisioned: true,
            sprite_name: Some(name),
            status: Some(status),
        },
        None => SpriteStatusResponse { provisioned: false, sprite_name: None, status: None },
    }
}

/// Code is run exactly where there are sprites, the language is one that has a runner, and there is
/// code. Without sprites that is what is told, whatever else is wrong.
pub proof fn law_code_can_be_run(configured: bool, body: EvalRequest)
    ensures
        eval_fault(configured, body) is None <==> configured && runner(body.language@) is Some
            && body.code@.len() > 0,
        eval_fault(configured, body) == Some(Status::NotImplemented) <==> !configured,
        eval_fault(configured, body) == Some(Status::BadRequest) <==> configured && (runner(
            body.language@,
        ) is None || body.code@.len() == 0),
{
    law_every_language_has_a_runner(body.language@);
}

/// The sprite is restored, then the code is written, then the runner, and then the code is run, and
/// that is all.
pub proof fn law_stages_of_a_run()
    ensures
        stage_after(EvalStage::Restore) == Some(EvalStage::WriteCode),
        stage_after(stage_after(EvalStage::Restore).unwrap()) == Some(EvalStage::WriteRunner),
        stage_after(stage_after(stage_after(EvalStage::Restore).unwrap()).unwrap()) == Some(
            EvalStage::Run,
        ),
        stage_after(EvalStage::Run) is None,
{
}

/// A run is completed where the code ended well, timed out where `timeout` broke it off, which it
/// tells by the exit code 124, and failed otherwise.
pub proof fn law_exit_code_tells_the_status(exit_code: int)
    ensures
        run_status(exit_code) == "completed"@ <==> exit_code == 0,
        run_status(exit_code) == "timeout"@ <==> exit_code == 124,
        run_status(exit_code) == "failed"@ <==> exit_code != 0 && exit_code != 124,
{
    reveal_strlit("completed");
    reveal_strlit("timeout");
    reveal_strlit("failed");
    assert("completed"@.len() == 9 && "timeout"@.len() == 7 && "failed"@.len() == 6);
}

/// The sandbox of a repository is set up from that repository.
pub proof fn law_setup_clones_the_repository(owner: Seq<char>, repo: Seq<char>)
    ensures
        occurs(
            setup_script(owner, repo),
            "https://agentcoderepo.fly.dev/git/"@ + owner + "/"@ + repo,
        ),
        bash(setup_script(owner, repo))[0] == "bash"@,
        bash(setup_script(owner, repo))[1] == setup_script(owner, repo),
{
    let url = "https://agentcoderepo.fly.dev/git/"@ + owner + "/"@ + repo;
    assert(setup_script(owner, repo) =~= SETUP_START@ + url + SETUP_END@);
    lemma_part_occurs(SETUP_START@, url, SETUP_END@);
}

/// A sprite that was provisioned is shown in a line: its name, and its checkpoint.
pub proof fn law_provisioned_sprite_is_shown_in_a_line(p: ProvisionResponse)
    ensures
        split(p.text(), '\n') == split("provisioned: "@ + p.sprite_name@ + " (checkpoint: "@ + p.checkpoint_id@ + ")"@, '\n')
            + seq![Seq::<char>::empty()],
{
    reveal_strlit(")\n");
    reveal_strlit(")");
    let line0 = "provisioned: "@ + p.sprite_name@ + " (checkpoint: "@ + p.checkpoint_id@ + ")"@;
    let end = Seq::<char>::empty();
    assert(p.text() =~= line0 + seq!['\n'] + end);
    lemma_ended_line(line0, end);
}

/// An evaluation is shown with its status, its exit code and the milliseconds it took in a line, and
/// what it wrote to each output under a heading, where it wrote something.
pub proof fn law_evaluation_is_shown_with_its_output(e: EvalResponse)
    ensures
        split(e.text(), '\n') == split(
            "["@ + e.status@ + "] exit="@ + dec_int(e.exit_code as int) + " ("@ + dec(
                e.duration_ms as nat,
            ) + "ms)"@,
            '\n',
        ) + (if e.stdout@.len() == 0 {
            seq![]
        } else {
            seq!["--- stdout ---"@] + split(e.stdout@, '\n')
        }) + (if e.stderr@.len() == 0 {
            seq![]
        } else {
            seq!["--- stderr ---"@] + split(e.stderr@, '\n')
        }) + seq![Seq::<char>::empty()],
{
    reveal_strlit("ms)\n");
    reveal_strlit("ms)");
    reveal_strlit("\n");
    let line = "["@ + e.status@ + "] exit="@ + dec_int(e.exit_code as int) + " ("@ + dec(
        e.duration_ms as nat,
    ) + "ms)"@;
    let end = Seq::<char>::empty();
    let errors = if e.stderr@.len() == 0 {
        end
    } else {
        "--- stderr ---"@ + seq!['\n'] + (e.stderr@ + seq!['\n'] + end)
    };
    let rest = if e.stdout@.len() == 0 {
        errors
    } else {
        "--- stdout ---"@ + seq!['\n'] + (e.stdout@ + seq!['\n'] + errors)
    };
    lemma_headings();
    assert(output_text("--- stderr ---\n"@, e.stderr@) =~= errors);
    assert(output_text("--- stdout ---\n"@, e.stdout@) + errors =~= rest);
    assert(e.text() =~= line + seq!['\n'] + rest);
    lemma_ended_line(line, rest);
    lemma_ended_line("--- stdout ---"@, e.stdout@ + seq!['\n'] + errors);
    lemma_ended_line(e.stdout@, errors);
    lemma_ended_line("--- stderr ---"@, e.stderr@ + seq!['\n'] + end);
    lemma_ended_line(e.stderr@, end);
}

proof fn lemma_headings()
    ensures
        "--- stdout ---\n"@ == "--- stdout ---"@ + seq!['\n'],
        "--- stderr ---\n"@ == "--- stderr ---"@ + seq!['\n'],
        split("--- stdout ---"@, '\n') == seq!["--- stdout ---"@],
        split("--- stderr ---"@, '\n') == seq!["--- stderr ---"@],
{
    reveal_strlit("--- stdout ---\n");
    reveal_strlit("--- stdout ---");
    reveal_strlit("--- stderr ---\n");
    reveal_strlit("--- stderr ---");
    assert(!"--- stdout ---"@.contains('\n'));
    assert(!"--- stderr ---"@.contains('\n'));
    crate::text::law_pieces_hold_no_separator("--- stdout ---"@, '\n');
    crate::text::law_pieces_hold_no_separator("--- stderr ---"@, '\n');
}

/// A sprite that is provisioned is shown in a line with its name and its status, each of them with a
/// question mark where it is not known.
pub proof fn law_sprite_status_is_shown_in_a_line(s: SpriteStatusResponse)
    ensures
        s.provisioned && s.sprite_name is Some && s.status is Some ==> split(s.text(), '\n') == split(
            "provisioned: "@ + s.sprite_name.unwrap()@ + " ("@ + s.status.unwrap()@ + ")"@,
            '\n',
        ) + seq![Seq::<char>::empty()],
        s.provisioned && s.sprite_name is Some && s.status is None ==> split(s.text(), '\n') == split(
            "provisioned: "@ + s.sprite_name.unwrap()@ + " (?)"@,
            '\n',
        ) + seq![Seq::<char>::empty()],
        s.provisioned && s.sprite_name is None && s.status is None ==> s.text()
            == "provisioned: ? (?)\n"@,
        s.provisioned && s.sprite_name is None && s.status is Some ==> split(s.text(), '\n') == split(
            "provisioned: ? ("@ + s.status.unwrap()@ + ")"@,
            '\n',
        ) + seq![Seq::<char>::empty()],
        !s.provisioned ==> s.text() == "not provisioned\n"@,
{
    reveal_strlit(")\n");
    reveal_strlit(")");
    reveal_strlit(" (");
    reveal_strlit(" (?)");
    reveal_strlit("?");
    reveal_strlit("provisioned: ");
    reveal_strlit("provisioned: ? (");
    reveal_strlit("provisioned: ? (?)\n");
    if s.provisioned {
        let name = or_unknown(opt_text(s.sprite_name));
        let status = or_unknown(opt_text(s.status));
        let line = "provisioned: "@ + name + " ("@ + status + ")"@;
        assert(s.text() =~= line + seq!['\n'] + Seq::<char>::empty());
        lemma_ended_line(line, Seq::<char>::empty());
        if s.sprite_name is Some && s.status is None {
            assert(line =~= "provisioned: "@ + name + " (?)"@);
        }
        if s.sprite_name is None && s.status is Some {
            assert(line =~= "provisioned: ? ("@ + status + ")"@);
        }
        if s.sprite_name is None && s.status is None {
            assert(s.text() =~= "provisioned: ? (?)\n"@);
        }
    }
}

/// There is a text for every answer; a list has one where each of its items has.
pub proof fn law_answers_can_be_shown(
    eval_response: EvalResponse,
    sprite_status_response: SpriteStatusResponse,
    provision_response: ProvisionResponse,
)
    ensures
        eval_response.renders(),
        sprite_status_response.renders(),
        provision_response.renders(),
{
}

} // verus!
