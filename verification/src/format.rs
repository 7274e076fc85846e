//! Content negotiation: respond as JSON or minimalist ASCII text.
//!
//! Agents can request `Accept: text/plain` to get a compact, token-efficient
//! text representation. JSON remains the default.

use vstd::prelude::*;
use vstd::string::*;
use vstd::utf8::*;
use crate::status::Status;
use crate::text::{occurs, text_contains};

verus! {

/// Output format determined by the `Accept` header.
#[derive(Debug, Clone, Copy, PartialEq, Eq, Structural)]
pub enum Format {
    Json,
    Text,
}

impl Default for Format {
    fn default() -> (r: Self)
        ensures
            r == Format::Json,
    {
        Format::Json
    }
}

/// The response format that a request asks for.
///
/// - `Accept: text/plain` → plain text
/// - Everything else (including no header) → JSON
#[derive(Debug, Clone, Copy)]
pub struct ContentNeg(pub Format);

/// The type of a response in plain text.
pub const TEXT_CONTENT_TYPE: &'static str = "text/plain; charset=utf-8";

impl ContentNeg {
    /// Reads the `Accept` header to determine response format.
    pub fn from_accept(accept: Option<&str>) -> (r: Self)
        ensures
            r.0 == (if accept matches Some(a) && occurs(a@, "text/plain"@) {
                Format::Text
            } else {
                Format::Json
            }),
    {
        match accept {
            Some(a) => if text_contains(a, "text/plain") {
                ContentNeg(Format::Text)
            } else {
                ContentNeg(Format::Json)
            },
            None => ContentNeg(Format::default()),
        }
    }

    pub fn ok<T>(self, data: T) -> (r: Negotiated<T>)
        ensures
            r == (Negotiated { format: self.0, status: Status::Success, data }),
    {
        Negotiated { format: self.0, status: Status::Success, data }
    }

    pub fn created<T>(self, data: T) -> (r: Negotiated<T>)
        ensures
            r == (Negotiated { format: self.0, status: Status::Created, data }),
    {
        Negotiated { format: self.0, status: Status::Created, data }
    }
}

/// Types that can render as plain text for agent consumption.
pub trait TextFormat {
    /// The plain text.
    spec fn text(&self) -> Seq<char>;

    /// Whether the value can be rendered.
    spec fn renders(&self) -> bool;

    fn to_text(&self) -> (r: String)
        requires
            self.renders(),
        ensures
            r@ == self.text(),
    ;
}

/// A response that serializes as JSON or plain text depending on content negotiation.
pub struct Negotiated<T> {
    pub format: Format,
    pub status: Status,
    pub data: T,
}

impl<T: TextFormat> Negotiated<T> {
    /// The body of the response where it is to be plain text.
    pub fn text_body(&self) -> (r: Option<String>)
        requires
            self.format == Format::Text ==> self.data.renders(),
        ensures
            match r {
                Some(s) => self.format == Format::Text && s@ == self.data.text(),
                None => self.format == Format::Json,
            },
    {
        match self.format {
            Format::Json => None,
            Format::Text => Some(self.data.to_text()),
        }
    }
}

/// The texts of a list, one behind the other.
pub open spec fn all_text<T: TextFormat>(v: Seq<T>) -> Seq<char>
    decreases v.len(),
{
    if v.len() == 0 {
        seq![]
    } else {
        all_text(v.drop_last()) + v.last().text()
    }
}

/// The texts of a list, or a line that says that it is empty.
pub open spec fn list_text<T: TextFormat>(v: Seq<T>, empty: Seq<char>) -> Seq<char> {
    if v.len() == 0 {
        empty
    } else {
        all_text(v)
    }
}

pub open spec fn all_render<T: TextFormat>(v: Seq<T>) -> bool {
    forall|i: int| 0 <= i < v.len() ==> (#[trigger] v[i]).renders()
}

pub fn render_all<T: TextFormat>(v: &Vec<T>) -> (r: String)
    requires
        all_render(v@),
    ensures
        r@ == all_text(v@),
{
    let mut s = String::new();
    let mut i: usize = 0;
    proof {
        assert(v@.take(0) =~= seq![]);
        assert(s@ =~= all_text(v@.take(0)));
    }
    while i < v.len()
        invariant
            i <= v@.len(),
            all_render(v@),
            s@ == all_text(v@.take(i as int)),
        decreases v@.len() - i,
    {
        proof {
            assert(v@.take(i as int + 1).drop_last() =~= v@.take(i as int));
        }
        s.append(v[i].to_text().as_str());
        i += 1;
    }
    proof {
        assert(v@.take(i as int) =~= v@);
    }
    s
}

pub fn render_list<T: TextFormat>(v: &Vec<T>, empty: &str) -> (r: String)
    requires
        all_render(v@),
    ensures
        r@ == list_text(v@, empty@),
{
    if v.len() == 0 {
        String::from_str(empty)
    } else {
        render_all(v)
    }
}

/// How many bytes of a commit name are shown.
pub open spec fn shown_bytes(s: Seq<char>) -> int {
    if encode_utf8(s).len() < 12 {
        encode_utf8(s).len() as int
    } else {
        12
    }
}

/// Whether the name can be cut there.
pub open spec fn can_shorten(s: Seq<char>) -> bool {
    is_char_boundary(encode_utf8(s), shown_bytes(s))
}

/// The first twelve bytes of a commit name, or all of a shorter one.
pub open spec fn shortened(s: Seq<char>) -> Seq<char> {
    decode_utf8(encode_utf8(s).take(shown_bytes(s)))
}

pub fn shorten(s: &str) -> (r: &str)
    requires
        can_shorten(s@),
    ensures
        r@ == shortened(s@),
{
    let bytes: usize = s.as_bytes().len();
    let n: usize = if bytes < 12 {
        bytes
    } else {
        12
    };
    let (front, _) = s.split_at(n);
    proof {
        encode_utf8_decode_utf8(front@);
        assert(encode_utf8(s@).take(n as int) =~= encode_utf8(s@).subrange(0, n as int));
    }
    front
}

/// A name of ASCII characters, as every commit name is, can be shortened, and is shortened to its
/// first twelve characters.
pub proof fn law_commit_name_is_shortened(s: Seq<char>)
    requires
        is_ascii_chars(s),
    ensures
        can_shorten(s),
        shortened(s) == s.take(if s.len() < 12 {
            s.len() as int
        } else {
            12
        }),
{
    let n = shown_bytes(s);
    let b = encode_utf8(s);
    is_ascii_chars_encode_utf8(s);
    let front = s.take(n);
    assert(is_ascii_chars(front)) by {
        assert forall|i: int| 0 <= i < front.len() implies '\0' <= #[trigger] front[i] <= '\u{7f}' by {
            assert(front[i] == s[i]);
        }
    }
    is_ascii_chars_encode_utf8(front);
    assert(encode_utf8(front) =~= b.take(n)) by {
        assert forall|i: int| 0 <= i < n implies encode_utf8(front)[i] == b.take(n)[i] by {
            assert(front[i] == s[i]);
            assert(s[i] as u8 == b[i]);
            assert(front[i] as u8 == encode_utf8(front)[i]);
        }
    }
    encode_utf8_decode_utf8(front);
    encode_utf8_valid_utf8(s);
    if n < b.len() {
        assert(s[n] as u8 == b[n]);
        assert('\0' <= s[n] <= '\u{7f}');
        assert(b[n] < 128);
        is_char_boundary_iff_is_leading_byte(b, n);
        let x = b[n];
        assert(x < 128 ==> is_leading_byte_width_1(x)) by (bit_vector);
    } else {
        is_char_boundary_start_end_of_seq(b);
    }
}

proof fn lemma_all_text<T: TextFormat>(a: Seq<T>, b: Seq<T>)
    ensures
        all_text(a + b) == all_text(a) + all_text(b),
    decreases b.len(),
{
    if b.len() == 0 {
        assert(a + b =~= a);
        assert(all_text(a) + all_text(b) =~= all_text(a));
    } else {
        lemma_all_text(a, b.drop_last());
        assert((a + b).drop_last() =~= a + b.drop_last());
        assert(all_text(a + b) =~= all_text(a) + all_text(b));
    }
}

/// A list is shown as its items are, all of them, one behind the other; only an empty one is shown by
/// the words for that.
pub proof fn law_lists_show_every_item<T: TextFormat>(
    a: Seq<T>,
    b: Seq<T>,
    one: T,
    empty: Seq<char>,
)
    ensures
        all_text(a + b) == all_text(a) + all_text(b),
        all_text(seq![one]) == one.text(),
        a.len() > 0 ==> list_text(a, empty) == all_text(a),
        list_text(Seq::<T>::empty(), empty) == empty,
{
    lemma_all_text(a, b);
    assert(seq![one].drop_last() =~= seq![]);
    reveal_with_fuel(all_text, 2);
    assert(all_text(seq![one]) =~= one.text());
}

} // verus!
