use archive_bot::decimal::{int_to_text, parse_int};
use archive_bot::failure::{decorate, error, marker, present, ErrorKind, Failure, MARKER_COUNT};
use archive_bot::order::{compare, sort_descending, sort_tags};
use archive_bot::post::{assemble_text, format_date, Date, Post};
use archive_bot::query::{
    create, delete, fetch_by_id_or_alias, fetch_random, list_by_tag, list_distinct_tags, Param,
    Query,
};
use archive_bot::reply::{
    create_outcome, delete_outcome, entry_key, join_quoted, list_tag, list_tags, random_outcome,
    search_outcome, tag_keys, Entry, StorageError,
};

fn strings(items: &[&str]) -> Vec<String> {
    items.iter().map(|s| s.to_string()).collect()
}

fn post(id: i64, comment: Option<&str>, attachment: Option<&str>) -> Post {
    Post {
        id,
        created_on: Date { year: 2024, month: 3, day: 5 },
        tag: "meme".to_string(),
        comment: comment.map(|c| c.to_string()),
        attachment: attachment.map(|a| a.to_string()),
        alias: None,
    }
}

fn int_param(q: &Query, k: usize) -> i64 {
    match &q.params[k] {
        Param::Int(n) => *n,
        _ => panic!("parameter {} is not an integer", k),
    }
}

fn text_param(q: &Query, k: usize) -> String {
    match &q.params[k] {
        Param::Text(s) => s.clone(),
        _ => panic!("parameter {} is not a text", k),
    }
}

#[test]
fn parse_int_reads_signed_decimals() {
    assert_eq!(parse_int("42"), Some(42));
    assert_eq!(parse_int("-7"), Some(-7));
    assert_eq!(parse_int("+5"), Some(5));
    assert_eq!(parse_int("007"), Some(7));
    assert_eq!(parse_int("9223372036854775807"), Some(i64::MAX));
    assert_eq!(parse_int("-9223372036854775808"), Some(i64::MIN));
}

#[test]
fn parse_int_refuses_other_text() {
    assert_eq!(parse_int(""), None);
    assert_eq!(parse_int("-"), None);
    assert_eq!(parse_int("+"), None);
    assert_eq!(parse_int("abc"), None);
    assert_eq!(parse_int(" 1"), None);
    assert_eq!(parse_int("1a"), None);
    assert_eq!(parse_int("9223372036854775808"), None);
    assert_eq!(parse_int("-9223372036854775809"), None);
    assert_eq!(parse_int("99999999999999999999999"), None);
}

#[test]
fn parse_int_agrees_with_std() {
    for s in ["0", "-0", "12", "-12", "+12", "x", "", "1.5", "٣"] {
        assert_eq!(parse_int(s), s.parse::<i64>().ok(), "{}", s);
    }
}

#[test]
fn int_to_text_writes_decimal() {
    assert_eq!(int_to_text(0), "0");
    assert_eq!(int_to_text(1), "1");
    assert_eq!(int_to_text(-5), "-5");
    assert_eq!(int_to_text(1234567890), "1234567890");
    assert_eq!(int_to_text(i64::MIN), i64::MIN.to_string());
    assert_eq!(int_to_text(i64::MAX), i64::MAX.to_string());
}

#[test]
fn lookup_of_numeric_text_binds_the_id() {
    let q = fetch_by_id_or_alias("1");
    assert_eq!(q.sql, "SELECT * FROM archive WHERE id = $1 OR alias = $2");
    assert_eq!(int_param(&q, 0), 1);
    assert_eq!(text_param(&q, 1), "1");
    assert_eq!(q.params.len(), 2);
}

#[test]
fn lookup_of_non_numeric_text_is_alias_only() {
    let q = fetch_by_id_or_alias("chat-noir");
    assert_eq!(int_param(&q, 0), -1);
    assert_eq!(text_param(&q, 1), "chat-noir");
    let q = fetch_by_id_or_alias("99999999999999999999");
    assert_eq!(int_param(&q, 0), -1);
}

#[test]
fn created_id_is_looked_up_by_its_text() {
    for id in [1i64, 42, 9_000_000_000, i64::MAX] {
        let reply = create_outcome(Ok(id)).unwrap();
        assert!(reply.contains(&format!("**{}**", id)));
        let q = fetch_by_id_or_alias(&int_to_text(id));
        assert_eq!(int_param(&q, 0), id);
    }
}

#[test]
fn random_query_has_a_tag_clause_only_with_a_tag() {
    let q = fetch_random(None);
    assert_eq!(q.sql, "SELECT * FROM archive ORDER BY RANDOM() LIMIT 1");
    assert!(q.params.is_empty());
    let q = fetch_random(Some("meme".to_string()));
    assert_eq!(q.sql, "SELECT * FROM archive WHERE tag = $1 ORDER BY RANDOM() LIMIT 1");
    assert_eq!(text_param(&q, 0), "meme");
    assert_eq!(q.params.len(), 1);
}

#[test]
fn create_without_comment_or_attachment_is_refused() {
    let r = create("meme".to_string(), None, None, Some("x".to_string()));
    match r {
        Err(f) => {
            assert_eq!(f, Failure::EmptyPost);
            assert_eq!(f.kind(), ErrorKind::Validation);
        }
        Ok(_) => panic!("a post with nothing in it was accepted"),
    }
}

#[test]
fn create_binds_every_field() {
    let q = match create("meme".to_string(), Some("lol".to_string()), None, None) {
        Ok(q) => q,
        Err(_) => panic!("refused"),
    };
    assert_eq!(
        q.sql,
        "INSERT INTO archive (tag, comment, attachment, alias) VALUES ($1, $2, $3, $4) RETURNING id"
    );
    assert_eq!(q.params.len(), 4);
    assert_eq!(text_param(&q, 0), "meme");
    assert_eq!(text_param(&q, 1), "lol");
    assert!(matches!(q.params[2], Param::Null));
    assert!(matches!(q.params[3], Param::Null));
    let q = match create(
        "t".to_string(),
        None,
        Some("https://a.b/c.png".to_string()),
        Some("al".to_string()),
    ) {
        Ok(q) => q,
        Err(_) => panic!("refused"),
    };
    assert!(matches!(q.params[1], Param::Null));
    assert_eq!(text_param(&q, 2), "https://a.b/c.png");
    assert_eq!(text_param(&q, 3), "al");
}

#[test]
fn delete_and_list_queries() {
    let q = delete(12);
    assert_eq!(q.sql, "DELETE FROM archive WHERE id = $1");
    assert_eq!(int_param(&q, 0), 12);
    let q = list_distinct_tags();
    assert_eq!(q.sql, "SELECT DISTINCT tag FROM archive");
    assert!(q.params.is_empty());
    let q = list_by_tag("meme");
    assert_eq!(q.sql, "SELECT * FROM archive WHERE tag = $1");
    assert_eq!(text_param(&q, 0), "meme");
}

#[test]
fn dates_are_day_month_year() {
    assert_eq!(format_date(Date { year: 2024, month: 3, day: 5 }), "05/03/2024");
    assert_eq!(format_date(Date { year: 1999, month: 12, day: 31 }), "31/12/1999");
    assert_eq!(format_date(Date { year: 5, month: 1, day: 1 }), "01/01/0005");
    assert_eq!(format_date(Date { year: -5, month: 1, day: 1 }), "01/01/-0005");
    assert_eq!(format_date(Date { year: 12345, month: 1, day: 1 }), "01/01/+12345");
}

#[test]
fn created_post_renders_with_its_comment() {
    let reply = create_outcome(Ok(1)).unwrap();
    assert_eq!(reply, ":sunglasses: Le post a été créé avec l'id : **1**");
    let r = post(1, Some("lol"), None).say();
    assert_eq!(r.text, "_Post N°_**1**_ créé le _**05/03/2024**\n> lol");
    assert!(r.text.contains("Post N°"));
    assert!(r.text.ends_with("\n> lol"));
    assert!(r.image.is_none());
}

#[test]
fn empty_comment_has_no_line() {
    let r = post(7, Some(""), None).say();
    assert_eq!(r.text, "_Post N°_**7**_ créé le _**05/03/2024**");
    let r = post(7, None, None).say();
    assert_eq!(r.text, "_Post N°_**7**_ créé le _**05/03/2024**");
}

#[test]
fn valid_attachment_becomes_the_image() {
    let r = post(3, None, Some("https://cdn.example.com/a.png")).say();
    assert_eq!(r.image.unwrap().as_str(), "https://cdn.example.com/a.png");
}

#[test]
fn invalid_attachment_is_dropped() {
    let r = post(3, Some("x"), Some("not a url")).say();
    assert!(r.image.is_none());
    assert!(r.text.ends_with("\n> x"));
}

#[test]
fn rendering_normalises_text() {
    let mut p = post(2, None, None);
    p.created_on = Date { year: 2023, month: 11, day: 9 };
    let r = p.say();
    assert_eq!(r.text, "_Post N°_**2**_ créé le _**09/11/2023**");
    assert_eq!(post(-4, None, None).say().text, "_Post N°_**-4**_ créé le _**05/03/2024**");
}

#[test]
fn markers_decorate_messages() {
    assert_eq!(decorate("oops", 0), "<:mdmd:957638205442773063> oops");
    assert_eq!(decorate("oops", 6), "<:commentcamonreuf:1099314723255754844> oops");
    let e = error("Aucun post n'a été trouvé");
    let found = (0..MARKER_COUNT)
        .any(|i| e == format!("{} Aucun post n'a été trouvé", marker(i)));
    assert!(found);
    let p = present(Failure::PostNotFound);
    assert!(p.ends_with(" Le post n'a pas été trouvé"));
    let v = present(Failure::EmptyPost);
    assert!((0..MARKER_COUNT)
        .any(|i| v == format!("{} Tu peux pas mettre un truc vide gros pd", marker(i))));
    let d = present(Failure::NothingRemoved);
    assert!(d.ends_with(" Y'a rien qu'a bougé sale gros"));
    let c = present(Failure::NotCreated);
    assert!(c.ends_with(" Aucun post n'a été créé batard"));
}

#[test]
fn failures_are_classified() {
    assert_eq!(Failure::EmptyPost.kind(), ErrorKind::Validation);
    assert_eq!(Failure::PostNotFound.kind(), ErrorKind::NotFound);
    assert_eq!(Failure::NoPostFound.kind(), ErrorKind::NotFound);
    assert_eq!(Failure::NotCreated.kind(), ErrorKind::NotFound);
    assert_eq!(Failure::NothingRemoved.kind(), ErrorKind::NotFound);
    assert_eq!(StorageError.kind(), ErrorKind::Storage);
    assert_eq!(Failure::NothingRemoved.message(), "Y'a rien qu'a bougé sale gros");
    assert_eq!(Failure::EmptyPost.message(), "Tu peux pas mettre un truc vide gros pd");
    assert_eq!(Failure::NotCreated.message(), "Aucun post n'a été créé batard");
    assert_eq!(Failure::PostNotFound.message(), "Le post n'a pas été trouvé");
    assert_eq!(Failure::NoPostFound.message(), "Aucun post n'a été trouvé");
}

#[test]
fn delete_of_missing_id_is_not_found() {
    let r = delete_outcome(Ok(0));
    assert_eq!(r, Err(Failure::NothingRemoved));
    assert_eq!(r.unwrap_err().kind(), ErrorKind::NotFound);
    assert_eq!(delete_outcome(Err(StorageError)), Err(Failure::NothingRemoved));
    assert_eq!(
        delete_outcome(Ok(1)),
        Ok("Le post a été renvoyé dans son pays :flag_fr:".to_string())
    );
}

#[test]
fn random_with_no_match_is_not_found() {
    assert!(matches!(random_outcome(Ok(None)), Err(Failure::NoPostFound)));
    assert!(matches!(random_outcome(Err(StorageError)), Err(Failure::NoPostFound)));
    let r = random_outcome(Ok(Some(post(5, Some("a"), None))));
    assert!(matches!(r, Ok(ref x) if x.text.ends_with("\n> a")));
}

#[test]
fn search_misses_are_not_found() {
    assert!(matches!(search_outcome(Ok(None)), Err(Failure::PostNotFound)));
    assert!(matches!(search_outcome(Err(StorageError)), Err(Failure::PostNotFound)));
    assert!(search_outcome(Ok(Some(post(9, None, None)))).is_ok());
}

#[test]
fn failed_insert_is_not_created() {
    assert_eq!(create_outcome(Err(StorageError)), Err(Failure::NotCreated));
}

#[test]
fn compare_orders_by_code_point() {
    assert!(compare("a", "b") < 0);
    assert!(compare("b", "a") > 0);
    assert_eq!(compare("abc", "abc"), 0);
    assert!(compare("a", "a!") < 0);
    assert!(compare("", "a") < 0);
    assert!(compare("Z", "a") < 0);
    assert!(compare("é", "z") > 0);
}

#[test]
fn tags_sorted_ascending_without_duplicates() {
    let sorted = sort_tags(&strings(&["meme", "chat", "meme", "a!", "a", "zz"]));
    assert_eq!(sorted, strings(&["a", "a!", "chat", "meme", "zz"]));
    assert!(sort_tags(&Vec::new()).is_empty());
    assert_eq!(
        list_tags(&strings(&["b", "a"])),
        "Les tags sont : ``a``, ``b``"
    );
    assert_eq!(list_tags(&Vec::new()), "Les tags sont : ");
}

#[test]
fn keys_sorted_descending() {
    let sorted = sort_descending(&strings(&["b", "a", "c", "b"]));
    assert_eq!(sorted, strings(&["c", "b", "b", "a"]));
    let entries = vec![
        Entry { id: 1, alias: None },
        Entry { id: 2, alias: Some("zeta".to_string()) },
        Entry { id: 10, alias: None },
    ];
    assert_eq!(tag_keys(&entries), strings(&["zeta", "10", "1"]));
    assert_eq!(entry_key(&entries[1]), "zeta");
    assert_eq!(
        list_tag("meme", &entries),
        "Les posts du tag ``meme`` sont : ``zeta``, ``10``, ``1``"
    );
    assert_eq!(list_tag("vide", &Vec::new()), "Les posts du tag ``vide`` sont : ");
}

#[test]
fn join_quoted_separates_items() {
    assert_eq!(join_quoted(&strings(&["x"])), "``x``");
    assert_eq!(join_quoted(&strings(&["x", "y", "z"])), "``x``, ``y``, ``z``");
    assert_eq!(join_quoted(&Vec::new()), "");
}

#[test]
fn assemble_text_joins_pieces_and_comment() {
    let t = assemble_text("_L_", "**1**", "_C_", "**D**", &Some("hi".to_string()));
    assert_eq!(t, "_L_**1**_C_**D**\n> hi");
    assert_eq!(assemble_text("a", "b", "c", "d", &Some(String::new())), "abcd");
    assert_eq!(assemble_text("a", "b", "c", "d", &None), "abcd");
}

#[test]
fn tag_listing_ignores_insertion_order() {
    let a = list_tags(&strings(&["meme", "chat", "zz", "chat"]));
    let b = list_tags(&strings(&["zz", "chat", "meme"]));
    assert_eq!(a, b);
    assert_eq!(a, "Les tags sont : ``chat``, ``meme``, ``zz``");
}
