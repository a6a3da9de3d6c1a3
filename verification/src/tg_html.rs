//! A chained builder for HTML-formatted messages: plain text is
//! entity-encoded with the minimal entity set, the formatting methods
//! wrap encoded text in their tags, and the finished string is handed
//! out verbatim.

use vstd::prelude::*;

verus! {

/// The minimal entity encoding of one character: five characters become
/// entities, every other character is kept.
pub open spec fn escaped_char(c: char) -> Seq<char> {
    if c == '"' {
        seq!['&', 'q', 'u', 'o', 't', ';']
    } else if c == '&' {
        seq!['&', 'a', 'm', 'p', ';']
    } else if c == '\'' {
        seq!['&', '#', 'x', '2', '7', ';']
    } else if c == '<' {
        seq!['&', 'l', 't', ';']
    } else if c == '>' {
        seq!['&', 'g', 't', ';']
    } else {
        seq![c]
    }
}

/// The minimal entity encoding of a string, character by character.
pub open spec fn escape_minimal(s: Seq<char>) -> Seq<char>
    decreases s.len()
{
    if s.len() == 0 {
        Seq::empty()
    } else {
        escaped_char(s[0]) + escape_minimal(s.subrange(1, s.len() as int))
    }
}

/// Relies on htmlescape::encode_minimal: each of the five minimal
/// entities (`" & ' < >`) replaces its character and every other
/// character is written through unchanged.
#[verifier::external_body]
fn encode_minimal_str(text: &str) -> (r: String)
    ensures
        r@ == escape_minimal(text@),
{
    htmlescape::encode_minimal(text)
}

/// The character of one decimal digit.
pub open spec fn dec_digit(d: int) -> char {
    if d == 0 {
        '0'
    } else if d == 1 {
        '1'
    } else if d == 2 {
        '2'
    } else if d == 3 {
        '3'
    } else if d == 4 {
        '4'
    } else if d == 5 {
        '5'
    } else if d == 6 {
        '6'
    } else if d == 7 {
        '7'
    } else if d == 8 {
        '8'
    } else {
        '9'
    }
}

/// Decimal digits of a non-negative number, most significant first.
pub open spec fn dec_rep(n: int) -> Seq<char>
    decreases n when n >= 0
{
    if n < 10 {
        seq![dec_digit(n)]
    } else {
        dec_rep(n / 10) + seq![dec_digit(n % 10)]
    }
}

/// Decimal rendering of a signed number.
pub open spec fn dec_rep_signed(n: int) -> Seq<char> {
    if n < 0 {
        seq!['-'] + dec_rep(-n)
    } else {
        dec_rep(n)
    }
}

/// The one-character string of a decimal digit.
fn digit_str(d: u64) -> (r: &'static str)
    requires
        d < 10,
    ensures
        r@ == seq![dec_digit(d as int)],
{
    proof {
        reveal_strlit("0");
        reveal_strlit("1");
        reveal_strlit("2");
        reveal_strlit("3");
        reveal_strlit("4");
        reveal_strlit("5");
        reveal_strlit("6");
        reveal_strlit("7");
        reveal_strlit("8");
        reveal_strlit("9");
    }
    if d == 0 {
        "0"
    } else if d == 1 {
        "1"
    } else if d == 2 {
        "2"
    } else if d == 3 {
        "3"
    } else if d == 4 {
        "4"
    } else if d == 5 {
        "5"
    } else if d == 6 {
        "6"
    } else if d == 7 {
        "7"
    } else if d == 8 {
        "8"
    } else {
        "9"
    }
}

/// Decimal rendering of an unsigned number.
fn u64_to_dec(n: u64) -> (r: String)
    ensures
        r@ == dec_rep(n as int),
    decreases n,
{
    if n < 10 {
        String::from_str(digit_str(n))
    } else {
        let mut s = u64_to_dec(n / 10);
        s.append(digit_str(n % 10));
        s
    }
}

/// Decimal rendering of a signed number.
fn i64_to_dec(n: i64) -> (r: String)
    ensures
        r@ == dec_rep_signed(n as int),
{
    if n >= 0 {
        u64_to_dec(n as u64)
    } else {
        let mag: u64 = ((-(n + 1)) as u64) + 1;
        let mut s = String::from_str("-");
        s.append(u64_to_dec(mag).as_str());
        proof {
            reveal_strlit("-");
            assert(s@ =~= seq!['-'] + dec_rep(mag as int));
        }
        s
    }
}

/// Builder for an HTML-formatted message; its view is the content built
/// so far.
pub struct TgHtml {
    content: String,
}

impl View for TgHtml {
    type V = Seq<char>;

    closed spec fn view(&self) -> Seq<char> {
        self.content@
    }
}

/// A fresh, empty builder.
pub fn tg_html() -> (r: TgHtml)
    ensures
        r@ == Seq::<char>::empty(),
{
    TgHtml::new()
}

impl TgHtml {
    pub fn new() -> (r: Self)
        ensures
            r@ == Seq::<char>::empty(),
    {
        TgHtml { content: String::new() }
    }

    /// Append text verbatim, without encoding.
    pub fn append(self, other: &str) -> (r: Self)
        ensures
            r@ == self@ + other@,
    {
        let mut content = self.content;
        content.append(other);
        TgHtml { content }
    }

    /// Append normal text, entity-encoded.
    pub fn plain(self, text: &str) -> (r: Self)
        ensures
            r@ == self@ + escape_minimal(text@),
    {
        let mut content = self.content;
        content.append(encode_minimal_str(text).as_str());
        TgHtml { content }
    }

    /// Append bold text, entity-encoded.
    pub fn bold(self, text: &str) -> (r: Self)
        ensures
            r@ == self@ + "<b>"@ + escape_minimal(text@) + "</b>"@,
    {
        let mut content = self.content;
        content.append("<b>");
        content.append(encode_minimal_str(text).as_str());
        content.append("</b>");
        TgHtml { content }
    }

    /// Append an expandable blockquote; the quoted text is taken
    /// verbatim.
    pub fn blockquote(self, text: &str) -> (r: Self)
        ensures
            r@ == self@ + "<blockquote expandable>"@ + text@ + "</blockquote>"@,
    {
        let mut content = self.content;
        content.append("<blockquote expandable>");
        content.append(text);
        content.append("</blockquote>");
        TgHtml { content }
    }

    /// Append italic text, entity-encoded.
    pub fn italic(self, text: &str) -> (r: Self)
        ensures
            r@ == self@ + "<i>"@ + escape_minimal(text@) + "</i>"@,
    {
        let mut content = self.content;
        content.append("<i>");
        content.append(encode_minimal_str(text).as_str());
        content.append("</i>");
        TgHtml { content }
    }

    /// Append underlined text, entity-encoded.
    pub fn underline(self, text: &str) -> (r: Self)
        ensures
            r@ == self@ + "<u>"@ + escape_minimal(text@) + "</u>"@,
    {
        let mut content = self.content;
        content.append("<u>");
        content.append(encode_minimal_str(text).as_str());
        content.append("</u>");
        TgHtml { content }
    }

    /// Append strikethrough text, entity-encoded.
    pub fn strikethrough(self, text: &str) -> (r: Self)
        ensures
            r@ == self@ + "<s>"@ + escape_minimal(text@) + "</s>"@,
    {
        let mut content = self.content;
        content.append("<s>");
        content.append(encode_minimal_str(text).as_str());
        content.append("</s>");
        TgHtml { content }
    }

    /// Append spoiler text, entity-encoded.
    pub fn spoiler(self, text: &str) -> (r: Self)
        ensures
            r@ == self@ + "<details>"@ + escape_minimal(text@) + "</details>"@,
    {
        let mut content = self.content;
        content.append("<details>");
        content.append(encode_minimal_str(text).as_str());
        content.append("</details>");
        TgHtml { content }
    }

    /// Append inline code, entity-encoded.
    pub fn code(self, text: &str) -> (r: Self)
        ensures
            r@ == self@ + "<code>"@ + escape_minimal(text@) + "</code>"@,
    {
        let mut content = self.content;
        content.append("<code>");
        content.append(encode_minimal_str(text).as_str());
        content.append("</code>");
        TgHtml { content }
    }

    /// Append a preformatted block, entity-encoded.
    pub fn pre(self, text: &str) -> (r: Self)
        ensures
            r@ == self@ + "<pre>"@ + escape_minimal(text@) + "</pre>"@,
    {
        let mut content = self.content;
        content.append("<pre>");
        content.append(encode_minimal_str(text).as_str());
        content.append("</pre>");
        TgHtml { content }
    }

    /// Append a hyperlink: the text is entity-encoded, the target is
    /// taken verbatim.
    pub fn link(self, text: &str, url: &str) -> (r: Self)
        ensures
            r@ == self@ + "<a href=\""@ + url@ + "\">"@ + escape_minimal(text@) + "</a>"@,
    {
        let mut content = self.content;
        content.append("<a href=\"");
        content.append(url);
        content.append("\">");
        content.append(encode_minimal_str(text).as_str());
        content.append("</a>");
        TgHtml { content }
    }

    /// Mention a user: a link whose target carries the user's id in
    /// decimal.
    pub fn mention(self, text: &str, user_id: i64) -> (r: Self)
        ensures
            r@ == self@ + "<a href=\""@ + "tg://user?id="@ + dec_rep_signed(user_id as int) + "\">"@
                + escape_minimal(text@) + "</a>"@,
    {
        let mut url = String::from_str("tg://user?id=");
        url.append(i64_to_dec(user_id).as_str());
        let ghost urlv = url@;
        let r = self.link(text, url.as_str());
        proof {
            assert(r@ =~= self@ + "<a href=\""@ + "tg://user?id="@ + dec_rep_signed(user_id as int)
                + "\">"@ + escape_minimal(text@) + "</a>"@);
        }
        r
    }

    /// Append `count` newline characters; zero appends nothing.
    pub fn n(self, count: usize) -> (r: Self)
        ensures
            r@ == self@ + Seq::new(count as nat, |k: int| '\n'),
    {
        let mut content = self.content;
        let ghost orig = content@;
        let mut i: usize = 0;
        while i < count
            invariant
                0 <= i <= count,
                content@ == orig + Seq::new(i as nat, |k: int| '\n'),
            decreases count - i,
        {
            content.append("\n");
            proof {
                reveal_strlit("\n");
                assert(content@ =~= orig + Seq::new(i as nat + 1, |k: int| '\n'));
            }
            i += 1;
        }
        proof {
            assert(orig + Seq::new(0nat, |k: int| '\n') =~= orig);
        }
        TgHtml { content }
    }

    /// Append `count` space characters; zero appends nothing.
    pub fn s(self, count: usize) -> (r: Self)
        ensures
            r@ == self@ + Seq::new(count as nat, |k: int| ' '),
    {
        let mut content = self.content;
        let ghost orig = content@;
        let mut i: usize = 0;
        while i < count
            invariant
                0 <= i <= count,
                content@ == orig + Seq::new(i as nat, |k: int| ' '),
            decreases count - i,
        {
            content.append(" ");
            proof {
                reveal_strlit(" ");
                assert(content@ =~= orig + Seq::new(i as nat + 1, |k: int| ' '));
            }
            i += 1;
        }
        proof {
            assert(orig + Seq::new(0nat, |k: int| ' ') =~= orig);
        }
        TgHtml { content }
    }

    /// Hand out the finished HTML string.
    pub fn build(self) -> (r: String)
        ensures
            r@ == self@,
    {
        self.content
    }

    /// The content built so far, as a string slice.
    pub fn as_str(&self) -> (r: &str)
        ensures
            r@ == self@,
    {
        self.content.as_str()
    }
}

/// Let a built message be passed where a `&str` is expected.
impl core::convert::AsRef<str> for TgHtml {
    fn as_ref(&self) -> (r: &str)
        ensures
            r@ == self@,
    {
        self.content.as_str()
    }
}

/// Let a built message be used as a `&str`.
impl core::ops::Deref for TgHtml {
    type Target = str;

    fn deref(&self) -> (r: &str)
        ensures
            r@ == self@,
    {
        self.content.as_str()
    }
}

} // verus!
