//! User-facing failures, their classification, and their decorated text.
use rand::Rng;
use vstd::prelude::*;

verus! {

/// How a failure is classified; the decoration never changes it.
#[derive(PartialEq, Eq, Structural, Clone, Copy, Debug)]
pub enum ErrorKind {
    Validation,
    NotFound,
    Storage,
}

/// The failures that a command reports to its user.
#[derive(PartialEq, Eq, Structural, Clone, Copy, Debug)]
pub enum Failure {
    /// A post was asked for with neither comment nor attachment.
    EmptyPost,
    /// No post has the given id or alias.
    PostNotFound,
    /// No post matches a random draw.
    NoPostFound,
    /// The insertion did not return an id.
    NotCreated,
    /// A delete removed no row.
    NothingRemoved,
}

pub const EMPTY_POST_TEXT: &'static str = "Tu peux pas mettre un truc vide gros pd";
pub const POST_NOT_FOUND_TEXT: &'static str = "Le post n'a pas été trouvé";
pub const NO_POST_FOUND_TEXT: &'static str = "Aucun post n'a été trouvé";
pub const NOT_CREATED_TEXT: &'static str = "Aucun post n'a été créé batard";
pub const NOTHING_REMOVED_TEXT: &'static str = "Y'a rien qu'a bougé sale gros";

/// Number of decorative markers.
pub const MARKER_COUNT: usize = 7;

pub const MARKER_0: &'static str = "<:mdmd:957638205442773063>";
pub const MARKER_1: &'static str = "<:chokbar:1145416431547203684>";
pub const MARKER_2: &'static str = "<:cas:1038561443185958972>";
pub const MARKER_3: &'static str = "<:bonkline:1082746112714227773>";
pub const MARKER_4: &'static str = "<:rireline:935485562687750175>";
pub const MARKER_5: &'static str = "<:wumboflush:931195078133821521>";
pub const MARKER_6: &'static str = "<:commentcamonreuf:1099314723255754844>";

pub open spec fn kind_of(f: Failure) -> ErrorKind {
    match f {
        Failure::EmptyPost => ErrorKind::Validation,
        _ => ErrorKind::NotFound,
    }
}

pub open spec fn message_of(f: Failure) -> Seq<char> {
    match f {
        Failure::EmptyPost => EMPTY_POST_TEXT@,
        Failure::PostNotFound => POST_NOT_FOUND_TEXT@,
        Failure::NoPostFound => NO_POST_FOUND_TEXT@,
        Failure::NotCreated => NOT_CREATED_TEXT@,
        Failure::NothingRemoved => NOTHING_REMOVED_TEXT@,
    }
}

pub open spec fn marker_of(i: int) -> Seq<char> {
    if i == 0 {
        MARKER_0@
    } else if i == 1 {
        MARKER_1@
    } else if i == 2 {
        MARKER_2@
    } else if i == 3 {
        MARKER_3@
    } else if i == 4 {
        MARKER_4@
    } else if i == 5 {
        MARKER_5@
    } else {
        MARKER_6@
    }
}

/// A message behind the marker of index `i` and one space.
pub open spec fn decorated(msg: Seq<char>, i: int) -> Seq<char> {
    marker_of(i) + seq![' '] + msg
}

impl Failure {
    pub fn kind(&self) -> (r: ErrorKind)
        ensures
            r == kind_of(*self),
    {
        match self {
            Failure::EmptyPost => ErrorKind::Validation,
            _ => ErrorKind::NotFound,
        }
    }

    pub fn message(&self) -> (r: &'static str)
        ensures
            r@ == message_of(*self),
    {
        match self {
            Failure::EmptyPost => EMPTY_POST_TEXT,
            Failure::PostNotFound => POST_NOT_FOUND_TEXT,
            Failure::NoPostFound => NO_POST_FOUND_TEXT,
            Failure::NotCreated => NOT_CREATED_TEXT,
            Failure::NothingRemoved => NOTHING_REMOVED_TEXT,
        }
    }
}

/// The marker of index `i`.
pub fn marker(i: usize) -> (r: &'static str)
    requires
        i < MARKER_COUNT,
    ensures
        r@ == marker_of(i as int),
{
    if i == 0 {
        MARKER_0
    } else if i == 1 {
        MARKER_1
    } else if i == 2 {
        MARKER_2
    } else if i == 3 {
        MARKER_3
    } else if i == 4 {
        MARKER_4
    } else if i == 5 {
        MARKER_5
    } else {
        MARKER_6
    }
}

/// Puts the marker of index `i` and a space before `msg`.
pub fn decorate(msg: &str, i: usize) -> (r: String)
    requires
        i < MARKER_COUNT,
    ensures
        r@ == decorated(msg@, i as int),
{
    proof {
        reveal_strlit(" ");
    }
    let mut out = String::from_str(marker(i));
    out.append(" ");
    out.append(msg);
    out
}

/// Relies on rand's `thread_rng().gen_range(0..7)`: a uniform index below the bound.
#[verifier::external_body]
fn draw_marker_index() -> (r: usize)
    ensures
        r < MARKER_COUNT,
{
    rand::thread_rng().gen_range(0..MARKER_COUNT)
}

/// Decorates `msg` with a marker drawn at random.
pub fn error(msg: &str) -> (r: String)
    ensures
        exists|i: int| 0 <= i < MARKER_COUNT && r@ == decorated(msg@, i),
{
    let i = draw_marker_index();
    decorate(msg, i)
}

/// The decorated text of a failure, with a marker drawn at random.
pub fn present(f: Failure) -> (r: String)
    ensures
        exists|i: int| 0 <= i < MARKER_COUNT && r@ == decorated(message_of(f), i),
{
    error(f.message())
}

} // verus!
