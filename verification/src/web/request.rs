use vstd::prelude::*;
use vstd::utf8::{decode_utf8, valid_utf8};

use crate::controllers::ActiveSport;
use crate::fields::{pairs_map, FieldMap};
use crate::text::{
    chars_eq_str, chars_of, find_char_from, first_line, first_line_exec, key_values, key_values_exec,
    replace_char, replace_char_exec, second_piece, second_piece_exec, split_char, string_of,
    words, words_exec,
};

verus! {

/// The text that `String::from_utf8_lossy` makes of `bytes`.
pub uninterp spec fn utf8_lossy(bytes: Seq<u8>) -> Seq<char>;

/// The text of a request as received (`String::from_utf8_lossy`): the named result
/// `utf8_lossy`, which is the decoded text wherever the bytes are valid UTF-8. Where they
/// are not, which replacement characters stand in for the invalid bytes is not stated.
#[verifier::external_body]
pub(crate) fn request_text(bytes: &[u8]) -> (r: String)
    ensures
        r@ == utf8_lossy(bytes@),
        valid_utf8(bytes@) ==> r@ == decode_utf8(bytes@),
{
    String::from_utf8_lossy(bytes).into_owned()
}

/// The method and target of a request: the first two words of its first line, or `GET`
/// and `/` where they are missing (an empty request reads as `GET / HTTP/1.1`).
pub open spec fn request_line_parts(req: Seq<char>) -> (Seq<char>, Seq<char>) {
    let line = match first_line(req) {
        Some(l) => l,
        None => "GET / HTTP/1.1"@,
    };
    let w = words(line);
    let method = if w.len() > 0 {
        w[0]
    } else {
        "GET"@
    };
    let target = if w.len() > 1 {
        w[1]
    } else {
        "/"@
    };
    (method, target)
}

/// The method and target of the request `req`.
pub fn parse_request_line(req: &str) -> (r: (String, String))
    ensures
        (r.0@, r.1@) == request_line_parts(req@),
{
    let chars = chars_of(req);
    let line = match first_line_exec(&chars) {
        Some(l) => l,
        None => chars_of("GET / HTTP/1.1"),
    };
    let w = words_exec(&line);
    let method = if w.len() > 0 {
        string_of(&w[0], 0, w[0].len())
    } else {
        "GET".to_string()
    };
    let target = if w.len() > 1 {
        string_of(&w[1], 0, w[1].len())
    } else {
        "/".to_string()
    };
    proof {
        if w@.len() > 0 {
            assert(w@[0]@.subrange(0, w@[0]@.len() as int) == w@[0]@);
        }
        if w@.len() > 1 {
            assert(w@[1]@.subrange(0, w@[1]@.len() as int) == w@[1]@);
        }
    }
    (method, target)
}

/// The body of a request: the text after the first blank line (`"\r\n\r\n"`) up to the
/// next one, or nothing where there is no blank line.
pub open spec fn body_text(req: Seq<char>) -> Seq<char> {
    match second_piece(req, "\r\n\r\n"@) {
        Some(b) => b,
        None => Seq::empty(),
    }
}

/// The body of the request `req`.
pub fn request_body(req: &str) -> (r: String)
    ensures
        r@ == body_text(req@),
{
    let chars = chars_of(req);
    let sep = chars_of("\r\n\r\n");
    match second_piece_exec(&chars, &sep) {
        Some(b) => {
            let s = string_of(&b, 0, b.len());
            assert(b@.subrange(0, b@.len() as int) == b@);
            s
        },
        None => String::new(),
    }
}

/// The fields of a form body: its `&`-separated pieces that hold an `'='`, split at the
/// first `'='`, each value with `'+'` read as a space, in order.
pub open spec fn form_pairs(body: Seq<char>) -> Seq<(Seq<char>, Seq<char>)> {
    key_values(split_char(body, '&')).map_values(
        |kv: (Seq<char>, Seq<char>)| (kv.0, replace_char(kv.1, '+', ' ')),
    )
}

/// The fields of a form body; where a key comes more than once, the last value stands.
pub fn parse_form(body: &str) -> (r: FieldMap)
    ensures
        r@ == pairs_map(form_pairs(body@)),
{
    let chars = chars_of(body);
    let kvs = key_values_exec(&chars, '&');
    let ghost target = form_pairs(body@);
    let mut form = FieldMap::new();
    assert(target.take(0) =~= Seq::<(Seq<char>, Seq<char>)>::empty());
    let mut i: usize = 0;
    while i < kvs.len()
        invariant
            i <= kvs@.len(),
            crate::text::pair_views(kvs@) == key_values(split_char(body@, '&')),
            target == form_pairs(body@),
            target.len() == kvs@.len(),
            form@ == pairs_map(target.take(i as int)),
        decreases kvs@.len() - i,
    {
        let k = string_of(&kvs[i].0, 0, kvs[i].0.len());
        let v0 = replace_char_exec(&kvs[i].1, '+', ' ');
        let v = string_of(&v0, 0, v0.len());
        proof {
            assert(kvs@[i as int].0@.subrange(0, kvs@[i as int].0@.len() as int) == kvs@[i as int].0@);
            assert(v0@.subrange(0, v0@.len() as int) == v0@);
            assert(crate::text::pair_views(kvs@)[i as int] == (kvs@[i as int].0@, kvs@[i as int].1@));
            assert(target.take(i + 1).drop_last() == target.take(i as int));
            assert(target.take(i + 1).last() == target[i as int]);
        }
        form.insert(k, v);
        i = i + 1;
    }
    assert(target.take(i as int) == target);
    form
}

/// The token a query string carries: the value of its first `key=value` piece where that
/// key is `token`, else nothing.
pub open spec fn query_token(query: Seq<char>) -> Seq<char> {
    let kv = key_values(split_char(query, '&'));
    if kv.len() > 0 && kv[0].0 == "token"@ {
        kv[0].1
    } else {
        Seq::empty()
    }
}

/// The token that the query string `query` carries.
pub fn token_of(query: &str) -> (r: String)
    ensures
        r@ == query_token(query@),
{
    let chars = chars_of(query);
    let kvs = key_values_exec(&chars, '&');
    proof {
        if kvs@.len() > 0 {
            assert(crate::text::pair_views(kvs@)[0] == (kvs@[0].0@, kvs@[0].1@));
        }
    }
    if kvs.len() > 0 && chars_eq_str(&kvs[0].0, "token") {
        let r = string_of(&kvs[0].1, 0, kvs[0].1.len());
        assert(kvs@[0].1@.subrange(0, kvs@[0].1@.len() as int) == kvs@[0].1@);
        r
    } else {
        String::new()
    }
}

/// A query string authorizes admin requests where its token is the admin password.
pub fn authorized(query: &str, admin_password_hash: &str) -> (b: bool)
    ensures
        b == (query_token(query@) == admin_password_hash@),
{
    let token = token_of(query);
    let t = chars_of(token.as_str());
    chars_eq_str(&t, admin_password_hash)
}

/// The sport named `s` in a request, if any.
pub open spec fn sport_named(s: Seq<char>) -> Option<ActiveSport> {
    if s == "baseball"@ {
        Some(ActiveSport::Baseball)
    } else if s == "basketball"@ {
        Some(ActiveSport::Basketball)
    } else if s == "football"@ {
        Some(ActiveSport::Football)
    } else if s == "soccer"@ {
        Some(ActiveSport::Soccer)
    } else if s == "volleyball"@ {
        Some(ActiveSport::Volleyball)
    } else if s == "wrestling"@ {
        Some(ActiveSport::Wrestling)
    } else if s == "water_polo"@ {
        Some(ActiveSport::WaterPolo)
    } else {
        None
    }
}

/// The sport named `s`.
pub fn parse_sport(s: &str) -> (r: Option<ActiveSport>)
    ensures
        r == sport_named(s@),
{
    let c = chars_of(s);
    if chars_eq_str(&c, "baseball") {
        Some(ActiveSport::Baseball)
    } else if chars_eq_str(&c, "basketball") {
        Some(ActiveSport::Basketball)
    } else if chars_eq_str(&c, "football") {
        Some(ActiveSport::Football)
    } else if chars_eq_str(&c, "soccer") {
        Some(ActiveSport::Soccer)
    } else if chars_eq_str(&c, "volleyball") {
        Some(ActiveSport::Volleyball)
    } else if chars_eq_str(&c, "wrestling") {
        Some(ActiveSport::Wrestling)
    } else if chars_eq_str(&c, "water_polo") {
        Some(ActiveSport::WaterPolo)
    } else {
        None
    }
}

/// Each sport's name reads back as that sport, and only a sport's name reads as a sport.
pub proof fn sport_name_round_trip(sport: ActiveSport, s: Seq<char>)
    ensures
        sport_named(sport.name()) == Some(sport),
        sport_named(s) == Some(sport) ==> s == sport.name(),
{
    reveal_strlit("baseball");
    reveal_strlit("basketball");
    reveal_strlit("football");
    reveal_strlit("soccer");
    reveal_strlit("volleyball");
    reveal_strlit("wrestling");
    reveal_strlit("water_polo");
    assert("baseball"@.len() == 8 && "baseball"@[0] == 'b');
    assert("basketball"@.len() == 10 && "basketball"@[0] == 'b');
    assert("football"@.len() == 8 && "football"@[0] == 'f');
    assert("soccer"@.len() == 6 && "soccer"@[0] == 's');
    assert("volleyball"@.len() == 10 && "volleyball"@[0] == 'v');
    assert("wrestling"@.len() == 9 && "wrestling"@[0] == 'w');
    assert("water_polo"@.len() == 10 && "water_polo"@[0] == 'w');
}

/// A text without the separator is one piece.
proof fn lemma_split_char_without_separator(s: Seq<char>, c: char)
    requires
        forall|i: int| 0 <= i < s.len() ==> s[i] != c,
    ensures
        split_char(s, c) == seq![s],
    decreases s.len(),
{
    if s.len() > 0 {
        lemma_split_char_without_separator(s.drop_last(), c);
        assert(s.drop_last().push(s.last()) =~= s);
        assert(split_char(s, c) =~= seq![s]);
    } else {
        assert(s =~= Seq::<char>::empty());
    }
}

/// The query `token=v` carries the token `v`, for every `v` without an `'&'`, so the admin
/// password given as the token always authorizes, whatever its length or characters.
pub proof fn query_token_of_token_query(v: Seq<char>)
    requires
        forall|i: int| 0 <= i < v.len() ==> v[i] != '&',
    ensures
        query_token("token="@ + v) == v,
{
    reveal_strlit("token=");
    reveal_strlit("token");
    let q = "token="@ + v;
    assert forall|i: int| 0 <= i < q.len() implies q[i] != '&' by {
        if i >= 6 {
            assert(q[i] == v[i - 6]);
        }
    }
    lemma_split_char_without_separator(q, '&');
    let pieces = split_char(q, '&');
    assert(pieces.drop_last() =~= Seq::<Seq<char>>::empty());
    assert(pieces.last() == q);
    crate::text::find_char_from_bounds(q, '=', 0);
    reveal_with_fuel(crate::text::find_char_from, 7);
    assert(q[5] == '=');
    assert(find_char_from(q, '=', 0) == Some(5int));
    assert(q.take(5) =~= "token"@);
    assert(q.skip(6) =~= v);
    assert(crate::text::split_once_char(q, '=') == Some((q.take(5), q.skip(6))));
    assert(key_values(pieces.drop_last()) =~= Seq::<(Seq<char>, Seq<char>)>::empty());
    assert(key_values(pieces) =~= seq![(q.take(5), q.skip(6))]);
}

} // verus!
