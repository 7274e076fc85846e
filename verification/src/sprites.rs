//! Requests to the Sprites API, and what its replies say.

use vstd::prelude::*;
use vstd::string::*;
use vstd::utf8::encode_utf8;
use crate::json::{json_int, json_int_at, json_string, json_string_at};
use crate::text::{
    chars_of, dec, ends_with, has_prefix, has_suffix, head, lines, lines_of, opt_text, push_bytes,
    same_text, string_of, strip_prefix, texts, trim_end_char, trim_end_of, u64_text,
};

verus! {

// ---------------------------------------------------------------------------
// Types
// ---------------------------------------------------------------------------

#[derive(Debug)]
pub struct Sprite {
    pub id: String,
    pub name: String,
    pub status: String,
    pub url: Option<String>,
}

#[derive(Debug)]
pub struct ExecResult {
    pub stdout: String,
    pub stderr: String,
    pub exit_code: i32,
}

/// What the result of a command says.
#[verifier::ext_equal]
pub struct ExecResultView {
    pub stdout: Seq<char>,
    pub stderr: Seq<char>,
    pub exit_code: int,
}

impl View for ExecResult {
    type V = ExecResultView;

    open spec fn view(&self) -> ExecResultView {
        ExecResultView {
            stdout: self.stdout@,
            stderr: self.stderr@,
            exit_code: self.exit_code as int,
        }
    }
}

#[derive(Debug)]
pub struct Checkpoint {
    pub id: String,
    pub comment: Option<String>,
    pub create_time: Option<String>,
}

#[derive(Debug)]
pub enum SpritesError {
    /// The request could not be made, with the reason.
    Http(String),
    Api { status: u16, body: String },
}

impl SpritesError {
    /// The error as it is shown.
    pub fn message(&self) -> (r: String)
        ensures
            r@ == match *self {
                SpritesError::Http(e) => "HTTP error: "@ + e@,
                SpritesError::Api { status, body } => "Sprites API error "@ + dec(status as nat)
                    + ": "@ + body@,
            },
    {
        match self {
            SpritesError::Http(e) => {
                let mut s = String::from_str("HTTP error: ");
                s.append(e.as_str());
                s
            },
            SpritesError::Api { status, body } => {
                let mut s = String::from_str("Sprites API error ");
                s.append(u64_text(*status as u64).as_str());
                s.append(": ");
                s.append(body.as_str());
                s
            },
        }
    }
}

// ---------------------------------------------------------------------------
// Requests
// ---------------------------------------------------------------------------

#[derive(Debug)]
pub enum Method {
    Get,
    Post,
    Put,
    Delete,
}

/// A request: its address and either the one field of its JSON body or the bytes of its body.
#[derive(Debug)]
pub struct SpriteRequest {
    pub method: Method,
    pub url: String,
    pub field: Option<(String, String)>,
    pub body: Vec<u8>,
}

/// Makes the requests of a client.
#[derive(Debug)]
pub struct SpritesClient {
    pub base_url: String,
    pub token: String,
}

/// Characters that stand for themselves in a query.
pub open spec fn is_unreserved(b: u8) -> bool {
    ||| 0x41 <= b <= 0x5a
    ||| 0x61 <= b <= 0x7a
    ||| 0x30 <= b <= 0x39
    ||| b == 0x2d
    ||| b == 0x5f
    ||| b == 0x2e
    ||| b == 0x7e
}

/// An upper-case hexadecimal digit.
pub open spec fn upper_digit(d: nat) -> char {
    if d < 10 {
        (48 + d) as char
    } else {
        (55 + d) as char
    }
}

pub open spec fn percent_byte(b: u8) -> Seq<char> {
    if is_unreserved(b) {
        seq![b as char]
    } else {
        seq!['%', upper_digit((b / 16) as nat), upper_digit((b % 16) as nat)]
    }
}

/// Percent-encoding of bytes.
pub open spec fn percent_encoded(b: Seq<u8>) -> Seq<char>
    decreases b.len(),
{
    if b.len() == 0 {
        seq![]
    } else {
        percent_encoded(b.drop_last()) + percent_byte(b.last())
    }
}

fn upper_char(d: u8) -> (r: char)
    requires
        d < 16,
    ensures
        r == upper_digit(d as nat),
{
    if d < 10 {
        (48 + d) as char
    } else {
        (55 + d) as char
    }
}

/// Simple percent-encoding for URL query parameters.
pub fn urlencoding_encode(s: &str) -> (r: String)
    ensures
        r@ == percent_encoded(encode_utf8(s@)),
{
    let bytes = s.as_bytes();
    let mut out = String::new();
    let mut i: usize = 0;
    proof {
        assert(bytes@.take(0) =~= seq![]);
    }
    while i < bytes.len()
        invariant
            i <= bytes@.len(),
            out@ == percent_encoded(bytes@.take(i as int)),
        decreases bytes@.len() - i,
    {
        let b: u8 = bytes[i];
        let ghost before = out@;
        if (0x41 <= b && b <= 0x5a) || (0x61 <= b && b <= 0x7a) || (0x30 <= b && b <= 0x39) || b
            == 0x2d || b == 0x5f || b == 0x2e || b == 0x7e {
            out.push(b as char);
        } else {
            out.push('%');
            out.push(upper_char(b / 16));
            out.push(upper_char(b % 16));
        }
        proof {
            assert(bytes@.take(i as int + 1).drop_last() =~= bytes@.take(i as int));
            assert(out@ =~= before + percent_byte(b));
        }
        i += 1;
    }
    proof {
        assert(bytes@.take(i as int) =~= bytes@);
    }
    out
}

/// The arguments of a command in an address.
pub open spec fn command_query(cmd: Seq<Seq<char>>) -> Seq<char>
    decreases cmd.len(),
{
    if cmd.len() == 0 {
        seq![]
    } else {
        command_query(cmd.drop_last()) + "&cmd="@ + percent_encoded(encode_utf8(cmd.last()))
    }
}

/// The environment of a command in an address.
pub open spec fn env_query(env: Seq<(String, String)>) -> Seq<char>
    decreases env.len(),
{
    if env.len() == 0 {
        seq![]
    } else {
        env_query(env.drop_last()) + "&env="@ + env.last().0@ + "="@ + percent_encoded(
            encode_utf8(env.last().1@),
        )
    }
}

impl SpritesClient {
    pub fn new(base_url: &str, token: &str) -> (r: Self)
        ensures
            r.base_url@ == trim_end_of(base_url@, '/'),
            r.token@ == token@,
    {
        let chars = chars_of(base_url);
        SpritesClient {
            base_url: string_of(trim_end_char(chars.as_slice(), '/')),
            token: String::from_str(token),
        }
    }

    /// The header that authorizes every request.
    pub fn auth_header(&self) -> (r: String)
        ensures
            r@ == "Bearer "@ + self.token@,
    {
        let mut s = String::from_str("Bearer ");
        s.append(self.token.as_str());
        s
    }

    /// Create a new sprite.
    pub fn create(&self, name: &str) -> (r: SpriteRequest)
        ensures
            r.method is Post,
            r.url@ == self.base_url@ + "/v1/sprites"@,
            r.field matches Some(f) && f.0@ == "name"@ && f.1@ == name@,
            r.body@ == Seq::<u8>::empty(),
    {
        let mut url = String::from_str(self.base_url.as_str());
        url.append("/v1/sprites");
        SpriteRequest { method: Method::Post, url, field: Some((String::from_str("name"), String::from_str(name))), body: Vec::new() }
    }

    /// Get sprite details.
    pub fn get(&self, name: &str) -> (r: SpriteRequest)
        ensures
            r.method is Get,
            r.url@ == self.base_url@ + "/v1/sprites/"@ + name@,
            r.field is None,
            r.body@ == Seq::<u8>::empty(),
    {
        let mut url = String::from_str(self.base_url.as_str());
        url.append("/v1/sprites/");
        url.append(name);
        SpriteRequest { method: Method::Get, url, field: None, body: Vec::new() }
    }

    /// Delete a sprite.
    pub fn delete(&self, name: &str) -> (r: SpriteRequest)
        ensures
            r.method is Delete,
            r.url@ == self.base_url@ + "/v1/sprites/"@ + name@,
            r.field is None,
            r.body@ == Seq::<u8>::empty(),
    {
        let mut url = String::from_str(self.base_url.as_str());
        url.append("/v1/sprites/");
        url.append(name);
        SpriteRequest { method: Method::Delete, url, field: None, body: Vec::new() }
    }

    /// Write a file to the sprite's filesystem.
    pub fn write_file(&self, sprite: &str, path: &str, content: &[u8]) -> (r: SpriteRequest)
        ensures
            r.method is Put,
            r.url@ == self.base_url@ + "/v1/sprites/"@ + sprite@ + "/fs/write?path="@ + path@ + "&mkdir=true"@,
            r.field is None,
            r.body@ == content@,
    {
        let mut url = String::from_str(self.base_url.as_str());
        url.append("/v1/sprites/");
        url.append(sprite);
        url.append("/fs/write?path=");
        url.append(path);
        url.append("&mkdir=true");
        let mut body: Vec<u8> = Vec::new();
        push_bytes(&mut body, content);
        proof {
            assert(body@ =~= content@);
        }
        SpriteRequest { method: Method::Put, url, field: None, body: body }
    }

    /// Read a file from the sprite's filesystem.
    pub fn read_file(&self, sprite: &str, path: &str) -> (r: SpriteRequest)
        ensures
            r.method is Get,
            r.url@ == self.base_url@ + "/v1/sprites/"@ + sprite@ + "/fs/read?path="@ + path@,
            r.field is None,
            r.body@ == Seq::<u8>::empty(),
    {
        let mut url = String::from_str(self.base_url.as_str());
        url.append("/v1/sprites/");
        url.append(sprite);
        url.append("/fs/read?path=");
        url.append(path);
        SpriteRequest { method: Method::Get, url, field: None, body: Vec::new() }
    }

    /// Create a checkpoint.
    pub fn checkpoint(&self, sprite: &str, comment: &str) -> (r: SpriteRequest)
        ensures
            r.method is Post,
            r.url@ == self.base_url@ + "/v1/sprites/"@ + sprite@ + "/checkpoint"@,
            r.field matches Some(f) && f.0@ == "comment"@ && f.1@ == comment@,
            r.body@ == Seq::<u8>::empty(),
    {
        let mut url = String::from_str(self.base_url.as_str());
        url.append("/v1/sprites/");
        url.append(sprite);
        url.append("/checkpoint");
        SpriteRequest { method: Method::Post, url, field: Some((String::from_str("comment"), String::from_str(comment))), body: Vec::new() }
    }

    /// Restore a sprite to a checkpoint.
    pub fn restore(&self, sprite: &str, checkpoint_id: &str) -> (r: SpriteRequest)
        ensures
            r.method is Post,
            r.url@ == self.base_url@ + "/v1/sprites/"@ + sprite@ + "/checkpoints/"@ + checkpoint_id@ + "/restore"@,
            r.field is None,
            r.body@ == Seq::<u8>::empty(),
    {
        let mut url = String::from_str(self.base_url.as_str());
        url.append("/v1/sprites/");
        url.append(sprite);
        url.append("/checkpoints/");
        url.append(checkpoint_id);
        url.append("/restore");
        SpriteRequest { method: Method::Post, url, field: None, body: Vec::new() }
    }

    /// List checkpoints for a sprite.
    pub fn list_checkpoints(&self, sprite: &str) -> (r: SpriteRequest)
        ensures
            r.method is Get,
            r.url@ == self.base_url@ + "/v1/sprites/"@ + sprite@ + "/checkpoints"@,
            r.field is None,
            r.body@ == Seq::<u8>::empty(),
    {
        let mut url = String::from_str(self.base_url.as_str());
        url.append("/v1/sprites/");
        url.append(sprite);
        url.append("/checkpoints");
        SpriteRequest { method: Method::Get, url, field: None, body: Vec::new() }
    }

    /// Execute a command on the sprite. The command and its arguments are given, and its environment.
    pub fn exec(&self, sprite: &str, cmd: &Vec<String>, env: &Vec<(String, String)>) -> (r:
        SpriteRequest)
        ensures
            r.method is Post,
            r.url@ == self.base_url@ + "/v1/sprites/"@ + sprite@ + "/exec?tty=false"@
                + command_query(texts(cmd@)) + env_query(env@),
            r.field is None,
            r.body@ == Seq::<u8>::empty(),
    {
        let mut url = String::from_str(self.base_url.as_str());
        url.append("/v1/sprites/");
        url.append(sprite);
        url.append("/exec?tty=false");
        let ghost place = url@;
        let ghost t = texts(cmd@);
        let mut i: usize = 0;
        proof {
            assert(t.take(0) =~= seq![]);
            assert(place + Seq::<char>::empty() =~= place);
        }
        while i < cmd.len()
            invariant
                i <= cmd@.len(),
                t == texts(cmd@),
                url@ == place + command_query(t.take(i as int)),
            decreases cmd@.len() - i,
        {
            let arg = urlencoding_encode(cmd[i].as_str());
            url.append("&cmd=");
            url.append(arg.as_str());
            proof {
                assert(t.take(i as int + 1).drop_last() =~= t.take(i as int));
                assert(t.take(i as int + 1).last() == cmd@[i as int]@);
                assert(url@ =~= place + (command_query(t.take(i as int)) + "&cmd="@ + arg@));
            }
            i += 1;
        }
        proof {
            assert(t.take(i as int) =~= t);
        }
        let ghost place = url@;
        let mut i: usize = 0;
        proof {
            assert(env@.take(0) =~= seq![]);
            assert(place + Seq::<char>::empty() =~= place);
        }
        while i < env.len()
            invariant
                i <= env@.len(),
                url@ == place + env_query(env@.take(i as int)),
            decreases env@.len() - i,
        {
            let value = urlencoding_encode(env[i].1.as_str());
            url.append("&env=");
            url.append(env[i].0.as_str());
            url.append("=");
            url.append(value.as_str());
            proof {
                assert(env@.take(i as int + 1).drop_last() =~= env@.take(i as int));
                assert(env@.take(i as int + 1).last() == env@[i as int]);
                assert(url@ =~= place + (env_query(env@.take(i as int)) + "&env="@
                    + env@[i as int].0@ + "="@ + value@));
            }
            i += 1;
        }
        proof {
            assert(env@.take(i as int) =~= env@);
        }
        SpriteRequest { method: Method::Post, url, field: None, body: Vec::new() }
    }
}

// ---------------------------------------------------------------------------
// Replies
// ---------------------------------------------------------------------------

/// A reply is what it says only where its status is one of success.
pub fn reply(status: u16, body: String) -> (r: Result<String, SpritesError>)
    ensures
        if 200 <= status < 300 {
            r matches Ok(b) && b == body
        } else {
            r matches Err(e) && e == (SpritesError::Api { status, body })
        },
{
    if 200 <= status && status < 300 {
        Ok(body)
    } else {
        Err(SpritesError::Api { status, body })
    }
}

/// An event, which stands on a line of its own.
#[derive(Debug)]
pub struct SpriteEvent {
    pub kind: Option<String>,
    pub data: Option<String>,
    pub exit_code: Option<i64>,
}

/// What an event says.
#[verifier::ext_equal]
pub struct SpriteEventView {
    pub kind: Option<Seq<char>>,
    pub data: Option<Seq<char>>,
    pub exit_code: Option<i64>,
}

impl View for SpriteEvent {
    type V = SpriteEventView;

    open spec fn view(&self) -> SpriteEventView {
        SpriteEventView {
            kind: opt_text(self.kind),
            data: opt_text(self.data),
            exit_code: self.exit_code,
        }
    }
}

/// The event on a line, where the line is a JSON document.
pub open spec fn event_on(line: Seq<char>) -> Option<SpriteEventView> {
    let b = encode_utf8(line);
    match (json_string(b, "/type"@), json_string(b, "/data"@), json_int(b, "/exit_code"@)) {
        (Some(kind), Some(data), Some(exit_code)) => Some(
            SpriteEventView { kind, data, exit_code },
        ),
        _ => None,
    }
}

pub open spec fn event_view(e: Option<SpriteEvent>) -> Option<SpriteEventView> {
    match e {
        Some(v) => Some(v@),
        None => None,
    }
}

/// Read the event on a line.
pub fn read_event(line: &str) -> (r: Option<SpriteEvent>)
    ensures
        event_view(r) == event_on(line@),
{
    let b = line.as_bytes();
    match (
        json_string_at(b, "/type"),
        json_string_at(b, "/data"),
        json_int_at(b, "/exit_code"),
    ) {
        (Some(kind), Some(data), Some(exit_code)) => Some(SpriteEvent { kind, data, exit_code }),
        _ => None,
    }
}

/// The 32-bit integer with the low bits of a longer one.
pub open spec fn low_bits(n: int) -> int {
    let m = n % 0x1_0000_0000;
    if m >= 0x8000_0000 {
        m - 0x1_0000_0000
    } else {
        m
    }
}

fn low_i32(n: i64) -> (r: i32)
    ensures
        r as int == low_bits(n as int),
{
    let m: i128 = (n as i128 + 0x8000_0000_0000_0000) % 0x1_0000_0000;
    proof {
        assert(0x8000_0000_0000_0000int == 0x8000_0000int * 0x1_0000_0000int);
        assert((n as int + 0x8000_0000int * 0x1_0000_0000int) % 0x1_0000_0000int == (n as int)
            % 0x1_0000_0000int);
    }
    if m >= 0x8000_0000 {
        (m - 0x1_0000_0000) as i32
    } else {
        m as i32
    }
}

/// What an event tells of a command: more of its output, or the code with which it ended. A line that
/// is no event is output as well.
pub open spec fn recorded(
    r: ExecResultView,
    line: Seq<char>,
    event: Option<SpriteEventView>,
) -> ExecResultView {
    if line.len() == 0 {
        r
    } else {
        match event {
            None => ExecResultView { stdout: r.stdout + line + "\n"@, ..r },
            Some(e) => if e.kind == Some("exit"@) {
                ExecResultView {
                    exit_code: low_bits(
                        match e.exit_code {
                            Some(n) => n as int,
                            None => -1,
                        },
                    ),
                    ..r
                }
            } else if e.kind == Some("stdout"@) && e.data is Some {
                ExecResultView { stdout: r.stdout + e.data->0, ..r }
            } else if e.kind == Some("stderr"@) && e.data is Some {
                ExecResultView { stderr: r.stderr + e.data->0, ..r }
            } else {
                r
            },
        }
    }
}

/// Whether an event is of a kind.
fn is_kind(event: &SpriteEvent, kind: &str) -> (r: bool)
    ensures
        r == (event@.kind == Some(kind@)),
{
    match &event.kind {
        Some(k) => same_text(k.as_str(), kind),
        None => false,
    }
}

impl ExecResult {
    /// Nothing written, and not ended.
    pub fn started() -> (r: Self)
        ensures
            r@ == (ExecResultView { stdout: seq![], stderr: seq![], exit_code: -1 }),
    {
        ExecResult { stdout: String::new(), stderr: String::new(), exit_code: -1 }
    }

    /// Record what a line tells, with the event on it where there is one.
    pub fn record(&mut self, line: &str, event: Option<SpriteEvent>)
        ensures
            final(self)@ == recorded(old(self)@, line@, event_view(event)),
    {
        proof {
            reveal_strlit("exit");
            reveal_strlit("stdout");
            reveal_strlit("stderr");
            assert("exit"@.len() == 4 && "stdout"@.len() == 6 && "stderr"@.len() == 6);
            assert("stdout"@[3] == 'o' && "stderr"@[3] == 'e');
        }
        if line.is_empty() {
            return;
        }
        match event {
            None => {
                self.stdout.append(line);
                self.stdout.append("\n");
            },
            Some(e) => {
                if is_kind(&e, "exit") {
                    let code: i64 = match e.exit_code {
                        Some(n) => n,
                        None => -1,
                    };
                    self.exit_code = low_i32(code);
                } else if is_kind(&e, "stdout") {
                    match e.data {
                        Some(data) => {
                            self.stdout.append(data.as_str());
                        },
                        None => {},
                    }
                } else if is_kind(&e, "stderr") {
                    match e.data {
                        Some(data) => {
                            self.stderr.append(data.as_str());
                        },
                        None => {},
                    }
                }
            },
        }
    }
}

/// What the lines of a reply tell of a command.
pub open spec fn command_outcome(ls: Seq<Seq<char>>) -> ExecResultView
    decreases ls.len(),
{
    if ls.len() == 0 {
        ExecResultView { stdout: seq![], stderr: seq![], exit_code: -1 }
    } else {
        recorded(command_outcome(ls.drop_last()), ls.last(), event_on(ls.last()))
    }
}

/// Read the reply to the execution of a command: one event on each line.
pub fn exec_result(body: &str) -> (r: ExecResult)
    ensures
        r@ == command_outcome(lines(body@)),
{
    let chars = chars_of(body);
    let all = lines_of(chars.as_slice());
    let ghost t = texts(all@);
    let mut out = ExecResult::started();
    let mut i: usize = 0;
    proof {
        assert(t.take(0) =~= seq![]);
    }
    while i < all.len()
        invariant
            i <= all@.len(),
            t == texts(all@),
            out@ == command_outcome(t.take(i as int)),
        decreases all@.len() - i,
    {
        proof {
            assert(t.take(i as int + 1).drop_last() =~= t.take(i as int));
            assert(t.take(i as int + 1).last() == all@[i as int]@);
        }
        let event = read_event(all[i].as_str());
        out.record(all[i].as_str(), event);
        i += 1;
    }
    proof {
        assert(t.take(i as int) =~= t);
    }
    out
}

/// The checkpoint that an event names: "Checkpoint v8 created" names v8.
pub open spec fn checkpoint_in(event: Option<SpriteEventView>) -> Option<Seq<char>> {
    match event {
        Some(e) => if e.kind == Some("complete"@) {
            match e.data {
                Some(data) => {
                    let rest = data.skip("Checkpoint "@.len() as int);
                    if has_prefix(data, "Checkpoint "@) && has_suffix(rest, " created"@) {
                        Some(rest.take(rest.len() - " created"@.len()))
                    } else {
                        None
                    }
                },
                None => None,
            }
        } else {
            None
        },
        None => None,
    }
}

/// The checkpoint that an event names.
pub fn checkpoint_of(event: Option<SpriteEvent>) -> (r: Option<String>)
    ensures
        opt_text(r) == checkpoint_in(event_view(event)),
{
    match event {
        None => None,
        Some(e) => {
            if !is_kind(&e, "complete") {
                return None;
            }
            match e.data {
                None => None,
                Some(data) => {
                    let chars = chars_of(data.as_str());
                    match strip_prefix(chars.as_slice(), "Checkpoint ") {
                        None => None,
                        Some(rest) => {
                            let end = chars_of(" created");
                            if ends_with(rest, end.as_slice()) {
                                Some(string_of(head(rest, rest.len() - end.len())))
                            } else {
                                None
                            }
                        },
                    }
                },
            }
        },
    }
}

/// The checkpoint that the first line that names one names.
pub open spec fn first_checkpoint(ls: Seq<Seq<char>>) -> Option<Seq<char>>
    decreases ls.len(),
{
    if ls.len() == 0 {
        None
    } else {
        match checkpoint_in(event_on(ls[0])) {
            Some(id) => Some(id),
            None => first_checkpoint(ls.drop_first()),
        }
    }
}

/// Read the reply to the creation of a checkpoint: its ID.
pub fn checkpoint_id(body: &str) -> (r: Result<String, SpritesError>)
    ensures
        match first_checkpoint(lines(body@)) {
            Some(id) => r matches Ok(s) && s@ == id,
            None => r matches Err(SpritesError::Api { status, body: b }) && status == 200 && b@
                == "checkpoint created but could not parse ID"@,
        },
{
    let chars = chars_of(body);
    let all = lines_of(chars.as_slice());
    let ghost t = texts(all@);
    let mut i: usize = 0;
    proof {
        assert(t.skip(0) =~= t);
    }
    while i < all.len()
        invariant
            i <= all@.len(),
            t == texts(all@),
            t == lines(body@),
            first_checkpoint(t.skip(i as int)) == first_checkpoint(t),
        decreases all@.len() - i,
    {
        proof {
            assert(t.skip(i as int)[0] == all@[i as int]@);
            assert(t.skip(i as int).drop_first() =~= t.skip(i as int + 1));
        }
        match checkpoint_of(read_event(all[i].as_str())) {
            Some(id) => {
                return Ok(id);
            },
            None => {},
        }
        i += 1;
    }
    Err(
        SpritesError::Api {
            status: 200,
            body: String::from_str("checkpoint created but could not parse ID"),
        },
    )
}

/// Why an event says that a sprite was not restored, where it does.
pub open spec fn failure_in(event: Option<SpriteEventView>) -> Option<Seq<char>> {
    match event {
        Some(e) => if e.kind == Some("error"@) {
            Some(
                match e.data {
                    Some(data) => data,
                    None => "restore failed"@,
                },
            )
        } else {
            None
        },
        None => None,
    }
}

/// Why an event says that a sprite was not restored, where it does.
pub fn failure_of(event: Option<SpriteEvent>) -> (r: Option<String>)
    ensures
        opt_text(r) == failure_in(event_view(event)),
{
    match event {
        Some(e) => {
            if is_kind(&e, "error") {
                match e.data {
                    Some(data) => Some(data),
                    None => Some(String::from_str("restore failed")),
                }
            } else {
                None
            }
        },
        None => None,
    }
}

/// The failure that the first line that tells of one tells.
pub open spec fn first_failure(ls: Seq<Seq<char>>) -> Option<Seq<char>>
    decreases ls.len(),
{
    if ls.len() == 0 {
        None
    } else {
        match failure_in(event_on(ls[0])) {
            Some(reason) => Some(reason),
            None => first_failure(ls.drop_first()),
        }
    }
}

/// Read the reply to a restoration.
pub fn restored(body: &str) -> (r: Result<(), SpritesError>)
    ensures
        match first_failure(lines(body@)) {
            Some(reason) => r matches Err(SpritesError::Api { status, body: b }) && status == 500
                && b@ == reason,
            None => r is Ok,
        },
{
    let chars = chars_of(body);
    let all = lines_of(chars.as_slice());
    let ghost t = texts(all@);
    let mut i: usize = 0;
    proof {
        assert(t.skip(0) =~= t);
    }
    while i < all.len()
        invariant
            i <= all@.len(),
            t == texts(all@),
            t == lines(body@),
            first_failure(t.skip(i as int)) == first_failure(t),
        decreases all@.len() - i,
    {
        proof {
            assert(t.skip(i as int)[0] == all@[i as int]@);
            assert(t.skip(i as int).drop_first() =~= t.skip(i as int + 1));
        }
        match failure_of(read_event(all[i].as_str())) {
            Some(reason) => {
                return Err(SpritesError::Api { status: 500, body: reason });
            },
            None => {},
        }
        i += 1;
    }
    Ok(())
}

// ---------------------------------------------------------------------------
// Laws
// ---------------------------------------------------------------------------

/// The value of an upper-case hexadecimal digit.
pub open spec fn upper_value(c: char) -> int {
    if c as int >= 65 {
        c as int - 55
    } else {
        c as int - 48
    }
}

/// What percent-encoded text stands for.
pub open spec fn percent_decoded(s: Seq<char>) -> Seq<u8>
    decreases s.len(),
{
    if s.len() == 0 {
        seq![]
    } else if s[0] == '%' && s.len() >= 3 {
        seq![(upper_value(s[1]) * 16 + upper_value(s[2])) as u8] + percent_decoded(s.skip(3))
    } else {
        seq![s[0] as u8] + percent_decoded(s.skip(1))
    }
}

proof fn lemma_decoded_byte(b: u8, rest: Seq<char>)
    ensures
        percent_decoded(percent_byte(b) + rest) == seq![b] + percent_decoded(rest),
{
    let s = percent_byte(b) + rest;
    if is_unreserved(b) {
        assert(s[0] == b as char);
        assert(b != 0x25);
        assert(s[0] != '%');
        assert(s.skip(1) =~= rest);
        assert(s[0] as u8 == b);
    } else {
        let h = (b / 16) as nat;
        let l = (b % 16) as nat;
        assert(s[0] == '%');
        assert(s[1] == upper_digit(h));
        assert(s[2] == upper_digit(l));
        assert(upper_value(upper_digit(h)) == h);
        assert(upper_value(upper_digit(l)) == l);
        assert(s.skip(3) =~= rest);
        assert(h * 16 + l == b);
    }
}

proof fn lemma_decoded_text(b: Seq<u8>, rest: Seq<char>)
    ensures
        percent_decoded(percent_encoded(b) + rest) == b + percent_decoded(rest),
    decreases b.len(),
{
    if b.len() == 0 {
        assert(percent_encoded(b) + rest =~= rest);
        assert(b + percent_decoded(rest) =~= percent_decoded(rest));
    } else {
        let front = percent_encoded(b.drop_last());
        assert(percent_encoded(b) + rest =~= front + (percent_byte(b.last()) + rest));
        lemma_decoded_text(b.drop_last(), percent_byte(b.last()) + rest);
        lemma_decoded_byte(b.last(), rest);
        assert(b.drop_last() + (seq![b.last()] + percent_decoded(rest)) =~= b + percent_decoded(
            rest,
        ));
    }
}

/// What was encoded is read back from the encoding.
pub proof fn law_encoding_is_read_back(b: Seq<u8>)
    ensures
        percent_decoded(percent_encoded(b)) == b,
{
    lemma_decoded_text(b, seq![]);
    assert(percent_encoded(b) + Seq::<char>::empty() =~= percent_encoded(b));
    assert(b + Seq::<u8>::empty() =~= b);
}

/// A digit of an escape.
pub open spec fn is_upper_hex(c: char) -> bool {
    '0' <= c <= '9' || 'A' <= c <= 'F'
}

/// Encoded text stays one value of a query: it holds no character that would end the value, begin
/// another or stand for a blank, and nothing but unreserved characters and escapes. An escape is a
/// percent sign and two upper-case hexadecimal digits.
pub proof fn law_encoded_text_stays_one_value(b: Seq<u8>, i: int)
    requires
        0 <= i < percent_encoded(b).len(),
    ensures
        percent_encoded(b)[i] != '&',
        percent_encoded(b)[i] != '=',
        percent_encoded(b)[i] != '#',
        percent_encoded(b)[i] != '+',
        percent_encoded(b)[i] != '?',
        percent_encoded(b)[i] != ' ',
        percent_encoded(b)[i] == '%' || (percent_encoded(b)[i] as u32 <= 0xff && is_unreserved(
            percent_encoded(b)[i] as u8,
        )),
        percent_encoded(b)[i] == '%' ==> i + 2 < percent_encoded(b).len() && is_upper_hex(
            percent_encoded(b)[i + 1],
        ) && is_upper_hex(percent_encoded(b)[i + 2]),
    decreases b.len(),
{
    let front = percent_encoded(b.drop_last());
    if i < front.len() {
        law_encoded_text_stays_one_value(b.drop_last(), i);
        if front[i] == '%' {
            assert(percent_encoded(b)[i + 1] == front[i + 1]);
            assert(percent_encoded(b)[i + 2] == front[i + 2]);
        }
    } else {
        let last = b.last();
        let piece = percent_byte(last);
        assert(percent_encoded(b)[i] == piece[i - front.len()]);
        if is_unreserved(last) {
            assert(piece[0] == last as char);
        } else if i == front.len() {
            assert(percent_encoded(b)[i + 1] == piece[1]);
            assert(percent_encoded(b)[i + 2] == piece[2]);
        }
    }
}

/// Output is only ever added to: what a command has written stays, whatever comes after.
pub proof fn law_output_is_kept(r: ExecResultView, line: Seq<char>, event: Option<SpriteEventView>)
    ensures
        has_prefix(recorded(r, line, event).stdout, r.stdout),
        has_prefix(recorded(r, line, event).stderr, r.stderr),
{
    let w = recorded(r, line, event);
    assert(w.stdout.take(r.stdout.len() as int) =~= r.stdout);
    assert(w.stderr.take(r.stderr.len() as int) =~= r.stderr);
}

/// A checkpoint whose creation is reported is found under its name.
pub proof fn law_checkpoint_is_read_back(id: Seq<char>)
    ensures
        checkpoint_in(
            Some(
                SpriteEventView {
                    kind: Some("complete"@),
                    data: Some("Checkpoint "@ + id + " created"@),
                    exit_code: None,
                },
            ),
        ) == Some(id),
{
    let p = "Checkpoint "@;
    let e = " created"@;
    let data = p + id + e;
    assert(data.take(p.len() as int) =~= p);
    assert(data.skip(p.len() as int) =~= id + e);
    assert((id + e).skip(id.len() as int) =~= e);
    assert((id + e).take(id.len() as int) =~= id);
}

/// The words of a command are sent one by one and in their order, each as a value of its own, and so
/// are the settings of its environment.
pub proof fn law_commands_are_sent_word_by_word(
    a: Seq<Seq<char>>,
    b: Seq<Seq<char>>,
    word: Seq<char>,
    env: Seq<(String, String)>,
    more: Seq<(String, String)>,
    setting: (String, String),
)
    ensures
        command_query(a + b) == command_query(a) + command_query(b),
        command_query(seq![word]) == "&cmd="@ + percent_encoded(encode_utf8(word)),
        env_query(env + more) == env_query(env) + env_query(more),
        env_query(seq![setting]) == "&env="@ + setting.0@ + "="@ + percent_encoded(
            encode_utf8(setting.1@),
        ),
{
    lemma_command_query(a, b);
    lemma_env_query(env, more);
    reveal_with_fuel(command_query, 2);
    reveal_with_fuel(env_query, 2);
    assert(seq![word].drop_last() =~= seq![]);
    assert(command_query(seq![word]) =~= "&cmd="@ + percent_encoded(encode_utf8(word)));
    assert(seq![setting].drop_last() =~= seq![]);
    assert(env_query(seq![setting]) =~= "&env="@ + setting.0@ + "="@ + percent_encoded(
        encode_utf8(setting.1@),
    ));
}

proof fn lemma_command_query(a: Seq<Seq<char>>, b: Seq<Seq<char>>)
    ensures
        command_query(a + b) == command_query(a) + command_query(b),
    decreases b.len(),
{
    if b.len() == 0 {
        assert(a + b =~= a);
        assert(command_query(a) + command_query(b) =~= command_query(a));
    } else {
        lemma_command_query(a, b.drop_last());
        assert((a + b).drop_last() =~= a + b.drop_last());
        assert(command_query(a + b) =~= command_query(a) + command_query(b));
    }
}

proof fn lemma_env_query(a: Seq<(String, String)>, b: Seq<(String, String)>)
    ensures
        env_query(a + b) == env_query(a) + env_query(b),
    decreases b.len(),
{
    if b.len() == 0 {
        assert(a + b =~= a);
        assert(env_query(a) + env_query(b) =~= env_query(a));
    } else {
        lemma_env_query(a, b.drop_last());
        assert((a + b).drop_last() =~= a + b.drop_last());
        assert(env_query(a + b) =~= env_query(a) + env_query(b));
    }
}

/// An event adds to what it names and to nothing else: output to the output, errors to the errors,
/// and an exit tells the exit code. A line that is no event is output as it stands, and an event of
/// another kind adds nothing.
pub proof fn law_events_add_to_what_they_name(
    r: ExecResultView,
    line: Seq<char>,
    data: Seq<char>,
    exit_code: i64,
    kind: Seq<char>,
)
    requires
        line.len() > 0,
        kind != "exit"@ && kind != "stdout"@ && kind != "stderr"@,
    ensures
        recorded(
            r,
            line,
            Some(SpriteEventView { kind: Some("stdout"@), data: Some(data), exit_code: None }),
        ) == (ExecResultView { stdout: r.stdout + data, ..r }),
        recorded(
            r,
            line,
            Some(SpriteEventView { kind: Some("stderr"@), data: Some(data), exit_code: None }),
        ) == (ExecResultView { stderr: r.stderr + data, ..r }),
        -0x8000_0000 <= exit_code < 0x8000_0000 ==> recorded(
            r,
            line,
            Some(
                SpriteEventView { kind: Some("exit"@), data: None, exit_code: Some(exit_code) },
            ),
        ) == (ExecResultView { exit_code: exit_code as int, ..r }),
        recorded(
            r,
            line,
            Some(SpriteEventView { kind: Some("exit"@), data: None, exit_code: None }),
        ) == (ExecResultView { exit_code: -1, ..r }),
        recorded(r, line, None) == (ExecResultView { stdout: r.stdout + line + "\n"@, ..r }),
        recorded(
            r,
            line,
            Some(SpriteEventView { kind: Some(kind), data: Some(data), exit_code: Some(exit_code) }),
        ) == r,
        recorded(r, seq![], None) == r,
{
    reveal_strlit("exit");
    reveal_strlit("stdout");
    reveal_strlit("stderr");
    assert("stdout"@[3] == 'o' && "stderr"@[3] == 'e');
    assert("exit"@.len() == 4 && "stdout"@.len() == 6 && "stderr"@.len() == 6);
}

/// An exit code keeps its lowest 32 bits, as a signed number; so one that fits is kept as it is.
pub proof fn law_exit_code_keeps_its_low_bits(n: int)
    ensures
        -0x8000_0000 <= low_bits(n) < 0x8000_0000,
        (n - low_bits(n)) % 0x1_0000_0000 == 0,
        -0x8000_0000 <= n < 0x8000_0000 ==> low_bits(n) == n,
{
}

/// What a command printed is all that its events say it printed, in the order of the events: a line
/// more adds to what was there, and a command without events printed nothing and has no exit code of
/// its own.
pub proof fn law_output_is_collected_in_order(ls: Seq<Seq<char>>, line: Seq<char>, data: Seq<char>)
    requires
        line.len() > 0,
    ensures
        command_outcome(seq![]) == (ExecResultView {
            stdout: seq![],
            stderr: seq![],
            exit_code: -1,
        }),
        event_on(line) is None ==> command_outcome(ls.push(line)) == (ExecResultView {
            stdout: command_outcome(ls).stdout + line + "\n"@,
            ..command_outcome(ls)
        }),
        event_on(line) == Some(
            SpriteEventView { kind: Some("stdout"@), data: Some(data), exit_code: None },
        ) ==> command_outcome(ls.push(line)) == (ExecResultView {
            stdout: command_outcome(ls).stdout + data,
            ..command_outcome(ls)
        }),
        event_on(line) == Some(
            SpriteEventView { kind: Some("stderr"@), data: Some(data), exit_code: None },
        ) ==> command_outcome(ls.push(line)) == (ExecResultView {
            stderr: command_outcome(ls).stderr + data,
            ..command_outcome(ls)
        }),
{
    assert(ls.push(line).drop_last() =~= ls);
    assert(ls.push(line).last() == line);
    reveal_strlit("exit");
    reveal_strlit("stdout");
    reveal_strlit("stderr");
    assert("stdout"@[3] == 'o' && "stderr"@[3] == 'e');
    assert("exit"@.len() == 4 && "stdout"@.len() == 6 && "stderr"@.len() == 6);
}

/// The first checkpoint that is told of is the one that was made, and the first failure is the one
/// that is reported, whatever lines stand before and behind it that tell of none.
pub proof fn law_first_of_a_kind_is_told(
    before: Seq<Seq<char>>,
    line: Seq<char>,
    after: Seq<Seq<char>>,
)
    ensures
        (forall|i: int|
            0 <= i < before.len() ==> checkpoint_in(event_on(#[trigger] before[i])) is None)
            && checkpoint_in(event_on(line)) is Some ==> first_checkpoint(
            before + seq![line] + after,
        ) == checkpoint_in(event_on(line)),
        (forall|i: int|
            0 <= i < before.len() ==> checkpoint_in(event_on(#[trigger] before[i])) is None)
            ==> first_checkpoint(before) is None,
        (forall|i: int|
            0 <= i < before.len() ==> failure_in(event_on(#[trigger] before[i])) is None)
            && failure_in(event_on(line)) is Some ==> first_failure(before + seq![line] + after)
            == failure_in(event_on(line)),
        (forall|i: int|
            0 <= i < before.len() ==> failure_in(event_on(#[trigger] before[i])) is None)
            ==> first_failure(before) is None,
    decreases before.len(),
{
    let all = before + seq![line] + after;
    if before.len() == 0 {
        assert(all[0] == line);
    } else {
        let tail = before.drop_first();
        law_first_of_a_kind_is_told(tail, line, after);
        assert(all[0] == before[0]);
        assert(all.drop_first() =~= tail + seq![line] + after);
        assert(forall|i: int| 0 <= i < tail.len() ==> tail[i] == before[i + 1]);
    }
}

/// An error is a failure, for the reason that it gives or for none that is known; nothing else is.
pub proof fn law_errors_are_failures(data: Seq<char>, kind: Seq<char>)
    requires
        kind != "error"@,
    ensures
        failure_in(
            Some(SpriteEventView { kind: Some("error"@), data: Some(data), exit_code: None }),
        ) == Some(data),
        failure_in(Some(SpriteEventView { kind: Some("error"@), data: None, exit_code: None }))
            == Some("restore failed"@),
        failure_in(Some(SpriteEventView { kind: Some(kind), data: Some(data), exit_code: None }))
            is None,
        failure_in(None) is None,
        checkpoint_in(None) is None,
{
}

/// What a value says in contracts is what its fields say, each in its own place.
pub proof fn law_views_show_every_field(exec_result: ExecResult, sprite_event: SpriteEvent)
    ensures
        exec_result@.stdout == exec_result.stdout@,
        exec_result@.stderr == exec_result.stderr@,
        exec_result@.exit_code == exec_result.exit_code as int,
        sprite_event@.kind == opt_text(sprite_event.kind),
        sprite_event@.data == opt_text(sprite_event.data),
        sprite_event@.exit_code == sprite_event.exit_code,
{
}

/// A value that may be missing says in contracts what it says where it is there.
pub proof fn law_missing_values_stay_missing(x: SpriteEvent)
    ensures
        event_view(Some(x)) == Some(x@),
        event_view(None) is None,
{
}

/// An event is read from the fields of its line that hold its kind, its data and its exit code; a line
/// that is no document holds no event.
pub proof fn law_events_are_read_from_their_fields(line: Seq<char>)
    ensures
        event_on(line) matches Some(e) ==> json_string(encode_utf8(line), "/type"@) == Some(e.kind)
            && json_string(encode_utf8(line), "/data"@) == Some(e.data) && json_int(
            encode_utf8(line),
            "/exit_code"@,
        ) == Some(e.exit_code),
        json_string(encode_utf8(line), "/type"@) is Some && json_string(
            encode_utf8(line),
            "/data"@,
        ) is Some && json_int(encode_utf8(line), "/exit_code"@) is Some ==> event_on(line) is Some,
        json_string(encode_utf8(line), "/type"@) is None ==> event_on(line) is None,
{
}

} // verus!
