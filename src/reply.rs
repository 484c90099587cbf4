//! What each command replies, once its statement has run.
use vstd::prelude::*;
use crate::decimal::{int_text, int_to_text};
use crate::failure::{kind_of, ErrorKind, Failure};
use crate::order::{lemma_ascending_unique, descending, sort_descending, sort_tags, strictly_ascending, texts};
use crate::post::{post_text, url_parses, Post, Rendered};

verus! {

/// A statement that could not run: the connection failed or the database refused it.
#[derive(PartialEq, Eq, Structural, Clone, Copy, Debug)]
pub struct StorageError;

impl StorageError {
    pub fn kind(&self) -> (r: ErrorKind)
        ensures
            r == ErrorKind::Storage,
    {
        ErrorKind::Storage
    }
}

/// The id and alias of a post, as a listing by tag shows them.
pub struct Entry {
    pub id: i64,
    pub alias: Option<String>,
}

pub const CREATED_PREFIX: &'static str = ":sunglasses: Le post a été créé avec l'id : **";
pub const CREATED_SUFFIX: &'static str = "**";
pub const REMOVED_TEXT: &'static str = "Le post a été renvoyé dans son pays :flag_fr:";
pub const TAGS_PREFIX: &'static str = "Les tags sont : ";
pub const TAG_POSTS_PREFIX: &'static str = "Les posts du tag ``";
pub const TAG_POSTS_MIDDLE: &'static str = "`` sont : ";

pub open spec fn quoted(s: Seq<char>) -> Seq<char> {
    seq!['`', '`'] + s + seq!['`', '`']
}

/// Each item between double backquotes, separated by a comma and a space.
pub open spec fn joined(items: Seq<Seq<char>>) -> Seq<char>
    decreases items.len(),
{
    if items.len() == 0 {
        Seq::empty()
    } else if items.len() == 1 {
        quoted(items[0])
    } else {
        joined(items.drop_last()) + seq![',', ' '] + quoted(items.last())
    }
}

/// What a post is listed as: its alias when it has one, else its id in decimal.
pub open spec fn key_of(e: Entry) -> Seq<char> {
    match e.alias {
        Some(a) => a@,
        None => int_text(e.id as int),
    }
}

pub open spec fn keys_of(entries: Seq<Entry>) -> Seq<Seq<char>> {
    entries.map_values(|e: Entry| key_of(e))
}

pub open spec fn found_post(row: Result<Option<Post>, StorageError>) -> bool {
    match row {
        Ok(Some(p)) => p.wf(),
        _ => true,
    }
}

/// The listing text of `items`.
pub fn join_quoted(items: &Vec<String>) -> (r: String)
    ensures
        r@ == joined(texts(items@)),
{
    let mut out = String::new();
    let mut i: usize = 0;
    while i < items.len()
        invariant
            i <= items.len(),
            out@ == joined(texts(items@).subrange(0, i as int)),
        decreases items.len() - i,
    {
        proof {
            reveal_strlit("``");
            reveal_strlit(", ");
        }
        let ghost before = texts(items@).subrange(0, i as int);
        let ghost next = texts(items@).subrange(0, i + 1);
        assert(next.drop_last() =~= before);
        assert(next.last() == items@[i as int]@);
        if i > 0 {
            out.append(", ");
        } else {
            assert(before =~= Seq::<Seq<char>>::empty());
        }
        out.append("``");
        out.append(items[i].as_str());
        out.append("``");
        assert(out@ =~= joined(next));
        i = i + 1;
    }
    assert(texts(items@).subrange(0, i as int) =~= texts(items@));
    out
}

/// The listing key of an entry.
pub fn entry_key(e: &Entry) -> (r: String)
    ensures
        r@ == key_of(*e),
{
    match &e.alias {
        Some(a) => a.clone(),
        None => int_to_text(e.id),
    }
}

/// The reply of a lookup by id or alias: the post, or that it was not found.
/// A storage failure is reported as not found.
pub fn search_outcome(row: Result<Option<Post>, StorageError>) -> (r: Result<Rendered, Failure>)
    requires
        found_post(row),
    ensures
        row matches Ok(Some(p)) ==> r is Ok && r->Ok_0.text@ == post_text(p) && (r->Ok_0.image is Some
            <==> (p.attachment is Some && url_parses(p.attachment->Some_0@))),
        !(row matches Ok(Some(_))) ==> r == Err::<Rendered, Failure>(Failure::PostNotFound),
{
    match row {
        Ok(Some(p)) => Ok(p.say()),
        _ => Err(Failure::PostNotFound),
    }
}

/// The reply of a random draw: the post, or that none matched.
/// A storage failure is reported as none found.
pub fn random_outcome(row: Result<Option<Post>, StorageError>) -> (r: Result<Rendered, Failure>)
    requires
        found_post(row),
    ensures
        row matches Ok(Some(p)) ==> r is Ok && r->Ok_0.text@ == post_text(p) && (r->Ok_0.image is Some
            <==> (p.attachment is Some && url_parses(p.attachment->Some_0@))),
        !(row matches Ok(Some(_))) ==> r == Err::<Rendered, Failure>(Failure::NoPostFound),
{
    match row {
        Ok(Some(p)) => Ok(p.say()),
        _ => Err(Failure::NoPostFound),
    }
}

/// The reply of an insertion: the new id, or that nothing was created.
pub fn create_outcome(res: Result<i64, StorageError>) -> (r: Result<String, Failure>)
    ensures
        res is Ok ==> r is Ok && r->Ok_0@ == CREATED_PREFIX@ + int_text(res->Ok_0 as int)
            + CREATED_SUFFIX@,
        res is Err ==> r == Err::<String, Failure>(Failure::NotCreated),
{
    match res {
        Ok(id) => {
            let mut s = String::from_str(CREATED_PREFIX);
            let t = int_to_text(id);
            s.append(t.as_str());
            s.append(CREATED_SUFFIX);
            Ok(s)
        },
        Err(_) => Err(Failure::NotCreated),
    }
}

/// The reply of a delete, given the number of rows it removed. Removing no
/// row, like a failed statement, is reported as not found.
pub fn delete_outcome(res: Result<u64, StorageError>) -> (r: Result<String, Failure>)
    ensures
        (res matches Ok(n) && n > 0) ==> r is Ok && r->Ok_0@ == REMOVED_TEXT@,
        !(res matches Ok(n) && n > 0) ==> r == Err::<String, Failure>(Failure::NothingRemoved),
        res == Ok::<u64, StorageError>(0) ==> r is Err && kind_of(r->Err_0) == ErrorKind::NotFound,
{
    match res {
        Ok(n) => if n > 0 {
            Ok(String::from_str(REMOVED_TEXT))
        } else {
            Err(Failure::NothingRemoved)
        },
        Err(_) => Err(Failure::NothingRemoved),
    }
}

/// The text of a listing of tags already in order.
pub fn tags_text(sorted: &Vec<String>) -> (r: String)
    ensures
        r@ == TAGS_PREFIX@ + joined(texts(sorted@)),
{
    let mut s = String::from_str(TAGS_PREFIX);
    let j = join_quoted(sorted);
    s.append(j.as_str());
    s
}

/// The reply listing every tag, each once, in ascending order.
pub fn list_tags(tags: &Vec<String>) -> (r: String)
    ensures
        exists|s: Seq<Seq<char>>|
            strictly_ascending(s) && (forall|x: Seq<char>| s.contains(x) <==> texts(tags@).contains(x))
                && r@ == TAGS_PREFIX@ + joined(s),
{
    let sorted = sort_tags(tags);
    tags_text(&sorted)
}

/// The tag listing does not depend on the order in which tags come, nor on
/// repeats: two inputs that hold the same tags get the same reply from
/// `list_tags`, whose ascending listing each of `s1` and `s2` stands for.
pub proof fn lemma_tags_reply_order_independent(
    t1: Seq<Seq<char>>,
    t2: Seq<Seq<char>>,
    s1: Seq<Seq<char>>,
    s2: Seq<Seq<char>>,
)
    requires
        forall|x: Seq<char>| t1.contains(x) <==> t2.contains(x),
        strictly_ascending(s1),
        forall|x: Seq<char>| s1.contains(x) <==> t1.contains(x),
        strictly_ascending(s2),
        forall|x: Seq<char>| s2.contains(x) <==> t2.contains(x),
    ensures
        s1 == s2,
        TAGS_PREFIX@ + joined(s1) == TAGS_PREFIX@ + joined(s2),
{
    lemma_ascending_unique(s1, s2);
}

/// The listing keys of `entries`, in descending order.
pub fn tag_keys(entries: &Vec<Entry>) -> (r: Vec<String>)
    ensures
        descending(texts(r@)),
        texts(r@).to_multiset() == keys_of(entries@).to_multiset(),
{
    let mut keys: Vec<String> = Vec::new();
    let mut i: usize = 0;
    while i < entries.len()
        invariant
            i <= entries.len(),
            texts(keys@) == keys_of(entries@).subrange(0, i as int),
        decreases entries.len() - i,
    {
        let k = entry_key(&entries[i]);
        assert(keys_of(entries@)[i as int] == key_of(entries@[i as int]));
        let ghost old_keys = keys@;
        keys.push(k);
        assert(texts(keys@) =~= texts(old_keys).push(k@));
        assert(texts(keys@) =~= keys_of(entries@).subrange(0, i + 1));
        i = i + 1;
    }
    assert(keys_of(entries@).subrange(0, i as int) =~= keys_of(entries@));
    sort_descending(&keys)
}

/// The text of a listing of the posts of `tag`, keys already in order.
pub fn tag_posts_text(tag: &str, sorted: &Vec<String>) -> (r: String)
    ensures
        r@ == TAG_POSTS_PREFIX@ + tag@ + TAG_POSTS_MIDDLE@ + joined(texts(sorted@)),
{
    let mut s = String::from_str(TAG_POSTS_PREFIX);
    s.append(tag);
    s.append(TAG_POSTS_MIDDLE);
    let j = join_quoted(sorted);
    s.append(j.as_str());
    s
}

/// The reply listing the posts of `tag` by key, in descending order.
pub fn list_tag(tag: &str, entries: &Vec<Entry>) -> (r: String)
    ensures
        exists|s: Seq<Seq<char>>|
            descending(s) && s.to_multiset() == keys_of(entries@).to_multiset() && r@
                == TAG_POSTS_PREFIX@ + tag@ + TAG_POSTS_MIDDLE@ + joined(s),
{
    let keys = tag_keys(entries);
    tag_posts_text(tag, &keys)
}

} // verus!
