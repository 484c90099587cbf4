//! A post of the archive and its rendering as a chat message.
use vstd::prelude::*;
use serenity::utils::MessageBuilder;
use url::Url;
use crate::decimal::{digits, int_text, int_to_text, push_digits};

verus! {

#[verifier::external_type_specification]
#[verifier::external_body]
pub struct ExUrl(Url);

/// A calendar day, as stored with a post.
#[derive(PartialEq, Eq, Structural, Clone, Copy, Debug)]
pub struct Date {
    pub year: i32,
    pub month: u8,
    pub day: u8,
}

impl Date {
    pub open spec fn wf(&self) -> bool {
        1 <= self.month <= 12 && 1 <= self.day <= 31
    }
}

/// One row of the archive.
pub struct Post {
    pub id: i64,
    pub created_on: Date,
    pub tag: String,
    pub comment: Option<String>,
    pub attachment: Option<String>,
    pub alias: Option<String>,
}

/// A rendered post: the message text and the image to attach, if any.
pub struct Rendered {
    pub text: String,
    pub image: Option<Url>,
}

pub const POST_LABEL: &'static str = "Post N°";
pub const CREATED_LABEL: &'static str = " créé le ";

/// What serenity's italic normalisation makes of a text.
pub uninterp spec fn italic_escaped(s: Seq<char>) -> Seq<char>;

/// What serenity's bold normalisation makes of a text.
pub uninterp spec fn bold_escaped(s: Seq<char>) -> Seq<char>;

/// Whether the url crate reads a text as an absolute URL.
pub uninterp spec fn url_parses(s: Seq<char>) -> bool;

pub open spec fn italic_of(s: Seq<char>) -> Seq<char> {
    seq!['_'] + italic_escaped(s) + seq!['_']
}

pub open spec fn bold_of(s: Seq<char>) -> Seq<char> {
    seq!['*', '*'] + bold_escaped(s) + seq!['*', '*']
}

/// Relies on serenity's `MessageBuilder::push_italic_safe` on an empty builder:
/// the normalised text between two underscores.
#[verifier::external_body]
fn italic_safe(s: &str) -> (r: String)
    ensures
        r@ == seq!['_'] + italic_escaped(s@) + seq!['_'],
{
    MessageBuilder::new().push_italic_safe(s).build()
}

/// Relies on serenity's `MessageBuilder::push_bold_safe` on an empty builder:
/// the normalised text between two pairs of asterisks.
#[verifier::external_body]
fn bold_safe(s: &str) -> (r: String)
    ensures
        r@ == seq!['*', '*'] + bold_escaped(s@) + seq!['*', '*'],
{
    MessageBuilder::new().push_bold_safe(s).build()
}

/// Relies on `url::Url::parse`: a URL exactly when the text parses.
#[verifier::external_body]
fn parse_url(s: &str) -> (r: Option<Url>)
    ensures
        r is Some <==> url_parses(s@),
{
    Url::parse(s).ok()
}

/// `n` in decimal, with leading zeros up to `width` digits.
pub open spec fn padded(n: nat, width: nat) -> Seq<char> {
    let d = digits(n);
    if d.len() < width {
        Seq::new((width - d.len()) as nat, |k: int| '0') + d
    } else {
        d
    }
}

/// A year as `%Y` writes it: four digits at least, with a sign outside 0..=9999.
pub open spec fn year_text(y: int) -> Seq<char> {
    if 0 <= y <= 9999 {
        padded(y as nat, 4)
    } else if y < 0 {
        seq!['-'] + padded((-y) as nat, 4)
    } else {
        seq!['+'] + padded(y as nat, 4)
    }
}

/// A day as `day/month/year`, day and month on two digits.
pub open spec fn date_text(d: Date) -> Seq<char> {
    padded(d.day as nat, 2) + seq!['/'] + padded(d.month as nat, 2) + seq!['/'] + year_text(d.year as int)
}

/// The quoted comment line, present only for a non-empty comment.
pub open spec fn comment_line(c: Option<String>) -> Seq<char> {
    match c {
        Some(s) => if s@.len() > 0 {
            seq!['\n', '>', ' '] + s@
        } else {
            Seq::empty()
        },
        None => Seq::empty(),
    }
}

/// The message text of a post.
pub open spec fn post_text(p: Post) -> Seq<char> {
    italic_of(POST_LABEL@) + bold_of(int_text(p.id as int)) + italic_of(CREATED_LABEL@) + bold_of(
        date_text(p.created_on),
    ) + comment_line(p.comment)
}

proof fn lemma_digits_len(n: nat)
    ensures
        n < 10 ==> digits(n).len() == 1,
        10 <= n < 100 ==> digits(n).len() == 2,
        100 <= n < 1000 ==> digits(n).len() == 3,
        1000 <= n ==> digits(n).len() >= 4,
    decreases n,
{
    if n >= 10 {
        lemma_digits_len(n / 10);
    }
}

/// Appends `n` with leading zeros up to four digits.
fn push_padded4(out: &mut String, n: u64)
    ensures
        final(out)@ == old(out)@ + padded(n as nat, 4),
{
    proof {
        reveal_strlit("000");
        reveal_strlit("00");
        reveal_strlit("0");
        lemma_digits_len(n as nat);
    }
    if n < 10 {
        out.append("000");
    } else if n < 100 {
        out.append("00");
    } else if n < 1000 {
        out.append("0");
    }
    push_digits(out, n);
    assert(final(out)@ =~= old(out)@ + padded(n as nat, 4));
}

/// Appends `n` with a leading zero up to two digits.
fn push_padded2(out: &mut String, n: u8)
    requires
        n < 100,
    ensures
        final(out)@ == old(out)@ + padded(n as nat, 2),
{
    proof {
        reveal_strlit("0");
        lemma_digits_len(n as nat);
    }
    if n < 10 {
        out.append("0");
    }
    push_digits(out, n as u64);
    assert(final(out)@ =~= old(out)@ + padded(n as nat, 2));
}

/// The day of `d` as `day/month/year`.
pub fn format_date(d: Date) -> (r: String)
    requires
        d.wf(),
    ensures
        r@ == date_text(d),
{
    proof {
        reveal_strlit("/");
        reveal_strlit("-");
        reveal_strlit("+");
    }
    let mut out = String::new();
    push_padded2(&mut out, d.day);
    out.append("/");
    push_padded2(&mut out, d.month);
    out.append("/");
    let y = d.year;
    if 0 <= y && y <= 9999 {
        push_padded4(&mut out, y as u64);
    } else if y < 0 {
        out.append("-");
        push_padded4(&mut out, (0i64 - y as i64) as u64);
    } else {
        out.append("+");
        push_padded4(&mut out, y as u64);
    }
    assert(out@ =~= date_text(d));
    out
}

/// The message text from its formatted pieces: the label, the id, the
/// creation label and the day, each already marked up, then the comment line.
pub fn assemble_text(label: &str, id: &str, created: &str, date: &str, comment: &Option<String>) -> (r: String)
    ensures
        r@ == label@ + id@ + created@ + date@ + comment_line(*comment),
{
    let mut text = String::from_str(label);
    text.append(id);
    text.append(created);
    text.append(date);
    match comment {
        Some(c) => {
            if c.as_str().unicode_len() > 0 {
                proof {
                    reveal_strlit("\n> ");
                }
                text.append("\n> ");
                text.append(c.as_str());
            }
        },
        None => {},
    }
    assert(text@ =~= label@ + id@ + created@ + date@ + comment_line(*comment));
    text
}

impl Post {
    pub open spec fn wf(&self) -> bool {
        self.created_on.wf()
    }

    /// The message of this post: its label, id and day, then its comment
    /// when there is a non-empty one; the attachment becomes the image when
    /// it reads as a URL, and is dropped otherwise.
    pub fn say(&self) -> (r: Rendered)
        requires
            self.wf(),
        ensures
            r.text@ == post_text(*self),
            r.image is Some <==> (self.attachment is Some && url_parses(
                self.attachment->Some_0@,
            )),
    {
        let label = italic_safe(POST_LABEL);
        let id_text = int_to_text(self.id);
        let id = bold_safe(id_text.as_str());
        let created = italic_safe(CREATED_LABEL);
        let date_text = format_date(self.created_on);
        let date = bold_safe(date_text.as_str());
        let text = assemble_text(label.as_str(), id.as_str(), created.as_str(), date.as_str(), &self.comment);
        let image = match &self.attachment {
            Some(a) => parse_url(a.as_str()),
            None => None,
        };
        assert(text@ =~= post_text(*self));
        Rendered { text, image }
    }
}

} // verus!
