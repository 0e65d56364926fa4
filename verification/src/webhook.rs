//! Webhook request authentication: every inbound event must carry the
//! provider's signature — a keyed digest over the canonical request address
//! plus the sorted form parameters — before any of its content is trusted.
//! A missing or undecodable signature is a malformed request; a decodable
//! signature that does not match is an authentication failure.

use crate::call::TwilioError;
use vstd::string::StringSliceAdditionalSpecFns;
use crate::text::str_eq;
use vstd::prelude::*;

verus! {

/// The keyed digest the provider computes: a function of the key and the
/// message alone.
pub uninterp spec fn hmac_sha1_of(key: Seq<u8>, msg: Seq<u8>) -> Seq<u8>;

/// Relies on hmac's Hmac over sha1's Sha1: the twenty-byte keyed digest of
/// the message; any key length is accepted.
#[verifier::external_body]
fn hmac_sha1(key: &[u8], msg: &[u8]) -> (r: Vec<u8>)
    ensures
        r@ == hmac_sha1_of(key@, msg@),
        r@.len() == 20,
{
    let mut mac = <hmac::Hmac<sha1::Sha1> as hmac::KeyInit>::new_from_slice(key).expect(
        "any key length is accepted",
    );
    hmac::Mac::update(&mut mac, msg);
    hmac::Mac::finalize(mac).into_bytes().to_vec()
}

/// What standard base64 decoding makes of the input: the decoded bytes, or
/// nothing when the input is not valid base64.
pub uninterp spec fn b64_decoded(s: Seq<u8>) -> Option<Seq<u8>>;

/// Relies on base64's standard-alphabet engine: decodes, or reports the
/// input malformed.
#[verifier::external_body]
fn base64_decode(input: &[u8]) -> (r: Option<Vec<u8>>)
    ensures
        match r {
            Some(v) => b64_decoded(input@) == Some(v@),
            None => b64_decoded(input@) is None,
        },
{
    match base64::Engine::decode(&base64::prelude::BASE64_STANDARD, input) {
        Ok(v) => Some(v),
        Err(_) => None,
    }
}

/// The name/value pairs form-urlencoded decoding makes of the input, in
/// input order, percent-decoded.
pub uninterp spec fn form_decoded(s: Seq<u8>) -> Seq<(Seq<char>, Seq<char>)>;

/// Relies on url's form_urlencoded parser: the percent-decoded name/value
/// pairs of the input, in order.
#[verifier::external_body]
fn args_from_urlencoded(input: &[u8]) -> (r: Vec<(String, String)>)
    ensures
        r@.map_values(|p: (String, String)| (p.0@, p.1@)) == form_decoded(input@),
{
    url::form_urlencoded::parse(input).into_owned().collect()
}

/// Byte-for-byte equality of two byte strings.
fn bytes_eq(a: &[u8], b: &[u8]) -> (r: bool)
    ensures
        r == (a@ == b@),
{
    if a.len() != b.len() {
        assert(a@ != b@);
        return false;
    }
    let n = a.len();
    let mut i: usize = 0;
    while i < n
        invariant
            i <= n,
            n == a@.len(),
            n == b@.len(),
            forall|k: int| 0 <= k < i ==> a@[k] == b@[k],
        decreases n - i,
    {
        if a[i] != b[i] {
            return false;
        }
        i += 1;
    }
    assert(a@ =~= b@);
    true
}

/// Lexicographic order on texts: by the first differing character, with a
/// proper prefix ordered first.
pub open spec fn lex_le(a: Seq<char>, b: Seq<char>) -> bool
    decreases a.len(),
{
    if a.len() == 0 {
        true
    } else if b.len() == 0 {
        false
    } else if a[0] < b[0] {
        true
    } else if b[0] < a[0] {
        false
    } else {
        lex_le(a.skip(1), b.skip(1))
    }
}

/// Strict lexicographic order.
pub open spec fn lex_lt(a: Seq<char>, b: Seq<char>) -> bool {
    lex_le(a, b) && a != b
}

/// Any two texts compare.
pub proof fn lemma_lex_total(a: Seq<char>, b: Seq<char>)
    ensures
        lex_le(a, b) || lex_le(b, a),
    decreases a.len(),
{
    if a.len() != 0 && b.len() != 0 && !(a[0] < b[0]) && !(b[0] < a[0]) {
        lemma_lex_total(a.skip(1), b.skip(1));
    }
}

/// Texts ordered both ways are equal.
pub proof fn lemma_lex_antisym(a: Seq<char>, b: Seq<char>)
    requires
        lex_le(a, b),
        lex_le(b, a),
    ensures
        a == b,
    decreases a.len(),
{
    if a.len() != 0 && b.len() != 0 {
        lemma_lex_antisym(a.skip(1), b.skip(1));
        assert(a =~= seq![a[0]] + a.skip(1));
        assert(b =~= seq![b[0]] + b.skip(1));
    } else {
        if a.len() == 0 {
            assert(b.len() == 0);
            assert(a =~= b);
        }
    }
}

/// Lexicographic order chains.
pub proof fn lemma_lex_trans(a: Seq<char>, b: Seq<char>, c: Seq<char>)
    requires
        lex_le(a, b),
        lex_le(b, c),
    ensures
        lex_le(a, c),
    decreases a.len(),
{
    if a.len() != 0 && b.len() != 0 && c.len() != 0 {
        if !(a[0] < b[0]) && !(b[0] < a[0]) && !(b[0] < c[0]) && !(c[0] < b[0]) {
            lemma_lex_trans(a.skip(1), b.skip(1), c.skip(1));
        }
    }
}

/// Whether `a` comes weakly before `b` in lexicographic order.
pub fn str_le(a: &str, b: &str) -> (r: bool)
    ensures
        r == lex_le(a@, b@),
{
    let n: usize = a.unicode_len();
    let m: usize = b.unicode_len();
    let mut i: usize = 0;
    proof {
        assert(a@.skip(0) =~= a@);
        assert(b@.skip(0) =~= b@);
    }
    loop
        invariant
            i <= n,
            i <= m,
            n == a@.len(),
            m == b@.len(),
            lex_le(a@, b@) == lex_le(a@.skip(i as int), b@.skip(i as int)),
        decreases n - i,
    {
        let ghost rest_a = a@.skip(i as int);
        let ghost rest_b = b@.skip(i as int);
        if i >= n {
            assert(rest_a.len() == 0);
            return true;
        }
        if i >= m {
            assert(rest_b.len() == 0 && rest_a.len() > 0);
            return false;
        }
        let ca = a.get_char(i);
        let cb = b.get_char(i);
        if ca < cb {
            return true;
        }
        if cb < ca {
            return false;
        }
        i += 1;
        proof {
            assert(rest_a.skip(1) =~= a@.skip(i as int));
            assert(rest_b.skip(1) =~= b@.skip(i as int));
        }
    }
}

/// The map a pair list denotes: each name bound to its value, a later pair
/// overriding an earlier one with the same name.
pub open spec fn pairs_map(s: Seq<(String, String)>) -> Map<Seq<char>, Seq<char>>
    decreases s.len(),
{
    if s.len() == 0 {
        Map::empty()
    } else {
        pairs_map(s.drop_last()).insert(s.last().0@, s.last().1@)
    }
}

/// Whether the pair list is strictly sorted by name, so each name occurs
/// once.
pub open spec fn keys_sorted_unique(s: Seq<(String, String)>) -> bool {
    forall|i: int, j: int|
        0 <= i < j < s.len() ==> lex_lt((#[trigger] s[i]).0@, (#[trigger] s[j]).0@)
}

/// Overwriting the value at a name's slot denotes the same map as binding
/// the name anew.
proof fn lemma_pairs_map_update(s: Seq<(String, String)>, j: int, p: (String, String))
    requires
        0 <= j < s.len(),
        s[j].0@ == p.0@,
        forall|x: int, y: int| 0 <= x < y < s.len() ==> (#[trigger] s[x]).0@ != (#[trigger] s[y]).0@,
    ensures
        pairs_map(s.update(j, p)) == pairs_map(s).insert(p.0@, p.1@),
    decreases s.len(),
{
    let t = s.update(j, p);
    if j == s.len() - 1 {
        assert(t.drop_last() =~= s.drop_last());
        assert(pairs_map(t) =~= pairs_map(s).insert(p.0@, p.1@));
    } else {
        assert(t.drop_last() =~= s.drop_last().update(j, p));
        lemma_pairs_map_update(s.drop_last(), j, p);
        assert(s.last().0@ != p.0@);
        assert(pairs_map(t) =~= pairs_map(s).insert(p.0@, p.1@));
    }
}

/// Placing a fresh name anywhere in the list denotes the same map as
/// binding it last.
proof fn lemma_pairs_map_insert(s: Seq<(String, String)>, j: int, p: (String, String))
    requires
        0 <= j <= s.len(),
        forall|x: int| 0 <= x < s.len() ==> (#[trigger] s[x]).0@ != p.0@,
    ensures
        pairs_map(s.take(j) + seq![p] + s.skip(j)) == pairs_map(s).insert(p.0@, p.1@),
    decreases s.len() - j,
{
    let t = s.take(j) + seq![p] + s.skip(j);
    if j == s.len() {
        assert(t.drop_last() =~= s);
        assert(t.last() == p);
    } else {
        assert(t.drop_last() =~= s.drop_last().take(j) + seq![p] + s.drop_last().skip(j));
        lemma_pairs_map_insert(s.drop_last(), j, p);
        assert(t.last() == s.last());
        assert(s.last().0@ != p.0@);
        assert(pairs_map(t) =~= pairs_map(s).insert(p.0@, p.1@));
    }
}

/// Whether `a` comes strictly before `b` in lexicographic order.
pub fn str_lt(a: &str, b: &str) -> (r: bool)
    ensures
        r == lex_lt(a@, b@),
{
    str_le(a, b) && !str_eq(a, b)
}

/// The slot where `key` belongs in a name-sorted list: the first slot whose
/// name does not come strictly before `key`.
fn find_slot(out: &Vec<(String, String)>, key: &str) -> (j: usize)
    ensures
        j <= out@.len(),
        forall|k: int| 0 <= k < j ==> lex_lt((#[trigger] out@[k]).0@, key@),
        j < out@.len() ==> !lex_lt(out@[j as int].0@, key@),
{
    let n = out.len();
    let mut j: usize = 0;
    while j < n
        invariant
            j <= n,
            n == out@.len(),
            forall|k: int| 0 <= k < j ==> lex_lt((#[trigger] out@[k]).0@, key@),
        decreases n - j,
    {
        if !str_lt(out[j].0.as_str(), key) {
            return j;
        }
        j += 1;
    }
    j
}

/// Sorts the decoded parameters by name, a later duplicate overriding an
/// earlier one, as the signature scheme's canonical parameter order asks.
pub fn sorted_unique_params(params: &Vec<(String, String)>) -> (r: Vec<(String, String)>)
    ensures
        keys_sorted_unique(r@),
        pairs_map(r@) == pairs_map(params@),
{
    let mut out: Vec<(String, String)> = Vec::new();
    let n = params.len();
    let mut i: usize = 0;
    proof {
        assert(params@.take(0) =~= Seq::<(String, String)>::empty());
    }
    while i < n
        invariant
            i <= n,
            n == params@.len(),
            keys_sorted_unique(out@),
            pairs_map(out@) == pairs_map(params@.take(i as int)),
        decreases n - i,
    {
        let ghost prev_out = out@;
        let key = params[i].0.clone();
        let value = params[i].1.clone();
        let j = find_slot(&out, key.as_str());
        proof {
            assert(params@.take(i + 1).drop_last() =~= params@.take(i as int));
        }
        if j < out.len() && str_eq(out[j].0.as_str(), key.as_str()) {
            let ghost slot = j as int;
            out[j] = (key, value);
            proof {
                assert(out@ =~= prev_out.update(slot, out@[slot]));
                assert forall|x: int, y: int|
                    0 <= x < y < prev_out.len() implies (#[trigger] prev_out[x]).0@ != (
                #[trigger] prev_out[y]).0@ by {
                    assert(lex_lt(prev_out[x].0@, prev_out[y].0@));
                }
                lemma_pairs_map_update(prev_out, slot, out@[slot]);
                assert forall|x: int, y: int| 0 <= x < y < out@.len() implies lex_lt(
                    (#[trigger] out@[x]).0@,
                    (#[trigger] out@[y]).0@,
                ) by {
                    assert(lex_lt(prev_out[x].0@, prev_out[y].0@));
                    assert(out@[x].0@ == prev_out[x].0@);
                    assert(out@[y].0@ == prev_out[y].0@);
                }
            }
        } else {
            let ghost slot = j as int;
            proof {
                if slot < prev_out.len() {
                    assert(!lex_lt(prev_out[slot].0@, key@));
                    assert(prev_out[slot].0@ != key@);
                    lemma_lex_total(prev_out[slot].0@, key@);
                    assert(lex_lt(key@, prev_out[slot].0@));
                }
                assert forall|x: int| 0 <= x < prev_out.len() implies (
                #[trigger] prev_out[x]).0@ != key@ by {
                    if x < slot {
                        assert(lex_lt(prev_out[x].0@, key@));
                    } else if x == slot {
                        assert(lex_lt(key@, prev_out[slot].0@));
                    } else {
                        assert(lex_lt(key@, prev_out[slot].0@));
                        assert(lex_lt(prev_out[slot].0@, prev_out[x].0@));
                        lemma_lex_trans(key@, prev_out[slot].0@, prev_out[x].0@);
                        if prev_out[x].0@ == key@ {
                            lemma_lex_antisym(key@, prev_out[x].0@);
                        }
                    }
                }
            }
            out.insert(j, (key, value));
            proof {
                assert(out@ =~= prev_out.take(slot) + seq![out@[slot]] + prev_out.skip(slot));
                lemma_pairs_map_insert(prev_out, slot, out@[slot]);
                assert forall|x: int, y: int| 0 <= x < y < out@.len() implies lex_lt(
                    (#[trigger] out@[x]).0@,
                    (#[trigger] out@[y]).0@,
                ) by {
                    if y == slot {
                        assert(out@[x] == prev_out[x]);
                        assert(lex_lt(prev_out[x].0@, key@));
                    } else if x == slot {
                        assert(out@[y] == prev_out[y - 1]);
                        if y - 1 == slot {
                            assert(lex_lt(key@, prev_out[slot].0@));
                        } else {
                            assert(lex_lt(key@, prev_out[slot].0@));
                            assert(lex_lt(prev_out[slot].0@, prev_out[y - 1].0@));
                            lemma_lex_trans(key@, prev_out[slot].0@, prev_out[y - 1].0@);
                            if key@ == prev_out[y - 1].0@ {
                                lemma_lex_antisym(key@, prev_out[y - 1].0@);
                            }
                        }
                    } else if x < slot && y > slot {
                        assert(out@[x] == prev_out[x]);
                        assert(out@[y] == prev_out[y - 1]);
                        if x == y - 1 {
                            assert(lex_lt(prev_out[x].0@, key@));
                            assert(lex_lt(key@, prev_out[slot].0@));
                        } else {
                            assert(lex_lt(prev_out[x].0@, prev_out[y - 1].0@));
                        }
                    } else if y < slot {
                        assert(out@[x] == prev_out[x]);
                        assert(out@[y] == prev_out[y]);
                        assert(lex_lt(prev_out[x].0@, prev_out[y].0@));
                    } else {
                        assert(out@[x] == prev_out[x - 1]);
                        assert(out@[y] == prev_out[y - 1]);
                        assert(lex_lt(prev_out[x - 1].0@, prev_out[y - 1].0@));
                    }
                }
            }
        }
        i += 1;
    }
    proof {
        assert(params@.take(n as int) =~= params@);
    }
    out
}

/// The names and values of the sorted parameters, run together in order:
/// the canonical parameter suffix of the signed text.
pub open spec fn spec_concat_pairs(s: Seq<(String, String)>) -> Seq<char>
    decreases s.len(),
{
    if s.len() == 0 {
        Seq::empty()
    } else {
        s[0].0@ + s[0].1@ + spec_concat_pairs(s.skip(1))
    }
}

/// Runs the sorted parameters' names and values together.
pub fn concat_pairs(params: &Vec<(String, String)>) -> (r: String)
    ensures
        r@ == spec_concat_pairs(params@),
{
    let mut out = String::new();
    let n = params.len();
    let mut i: usize = 0;
    proof {
        assert(params@.skip(0) =~= params@);
        assert(out@ + spec_concat_pairs(params@) =~= spec_concat_pairs(params@));
    }
    while i < n
        invariant
            i <= n,
            n == params@.len(),
            spec_concat_pairs(params@) == out@ + spec_concat_pairs(params@.skip(i as int)),
        decreases n - i,
    {
        let ghost rest = params@.skip(i as int);
        out.append(params[i].0.as_str());
        out.append(params[i].1.as_str());
        i += 1;
        proof {
            assert(rest.skip(1) =~= params@.skip(i as int));
            assert(out@ + spec_concat_pairs(params@.skip(i as int)) =~= spec_concat_pairs(
                params@,
            ));
        }
    }
    proof {
        assert(params@.skip(n as int) =~= Seq::<(String, String)>::empty());
    }
    out
}

/// The text the signature is computed over: the request address, and for a
/// posted form the sorted parameters run together.
pub open spec fn spec_canonical_uri(
    host: Seq<char>,
    path: Seq<char>,
    post_suffix: Seq<char>,
) -> Seq<char> {
    "https://"@ + host + path + post_suffix
}

/// The canonical parameter suffix of the signed text: empty for a read,
/// the sorted parameters run together for a posted form.
pub open spec fn spec_canonical_suffix(is_post: bool, sorted: Seq<(String, String)>) -> Seq<
    char,
> {
    if is_post {
        spec_concat_pairs(sorted)
    } else {
        Seq::empty()
    }
}

/// Whether the provided digest is exactly this request's keyed digest: the
/// digest of `https://` + host + path + the canonical parameter suffix,
/// keyed with the shared secret.
pub fn signature_matches(
    auth_token: &str,
    expected: &[u8],
    host: &str,
    path: &str,
    is_post: bool,
    sorted_params: &Vec<(String, String)>,
) -> (r: bool)
    ensures
        r == (hmac_sha1_of(
            auth_token.spec_bytes(),
            vstd::utf8::encode_utf8(
                spec_canonical_uri(
                    host@,
                    path@,
                    spec_canonical_suffix(is_post, sorted_params@),
                ),
            ),
        ) == expected@),
{
    let suffix: String = if is_post {
        concat_pairs(sorted_params)
    } else {
        String::new()
    };
    let mut canonical = String::new();
    canonical.append("https://");
    canonical.append(host);
    canonical.append(path);
    canonical.append(suffix.as_str());
    proof {
        assert(canonical@ =~= spec_canonical_uri(
            host@,
            path@,
            spec_canonical_suffix(is_post, sorted_params@),
        ));
    }
    let digest = hmac_sha1(auth_token.as_bytes(), canonical.as_str().as_bytes());
    bytes_eq(digest.as_slice(), expected)
}

/// Authenticates one webhook request and hands back its form parameters,
/// sorted by name with a later duplicate overriding an earlier one.
///
/// The expected signature is base64-decoded — an undecodable one is a
/// malformed request, not an authentication failure. The request's own
/// digest is computed as in [`signature_matches`]; only a matching digest
/// lets the parameters through, a mismatch is an authentication failure.
pub fn parse_request(
    auth_token: &str,
    signature_b64: &[u8],
    host: &str,
    path: &str,
    is_post: bool,
    body: &[u8],
) -> (r: Result<Vec<(String, String)>, TwilioError>)
    ensures
        r matches Err(e) ==> (e is BadRequest || e is AuthError),
        r is Err ==> (r matches Err(e) && (e is BadRequest <==> b64_decoded(signature_b64@)
            is None)),
        r matches Ok(args) ==> {
            &&& keys_sorted_unique(args@)
            &&& ({
                let decoded = if is_post {
                    form_decoded(body@)
                } else {
                    Seq::<(Seq<char>, Seq<char>)>::empty()
                };
                pairs_map_v(args@.map_values(|p: (String, String)| (p.0@, p.1@))) == pairs_map_v(
                    decoded,
                )
            })
            &&& (b64_decoded(signature_b64@) matches Some(expected) && hmac_sha1_of(
                auth_token.spec_bytes(),
                vstd::utf8::encode_utf8(
                    spec_canonical_uri(host@, path@, spec_canonical_suffix(is_post, args@)),
                ),
            ) == expected)
        },
        (r matches Err(e) && e is AuthError) ==> (b64_decoded(signature_b64@) matches Some(
            expected,
        ) && exists|sorted: Seq<(String, String)>|
            {
                let decoded = if is_post {
                    form_decoded(body@)
                } else {
                    Seq::<(Seq<char>, Seq<char>)>::empty()
                };
                &&& #[trigger] keys_sorted_unique(sorted)
                &&& pairs_map_v(sorted.map_values(|p: (String, String)| (p.0@, p.1@)))
                    == pairs_map_v(decoded)
                &&& hmac_sha1_of(
                    auth_token.spec_bytes(),
                    vstd::utf8::encode_utf8(
                        spec_canonical_uri(
                            host@,
                            path@,
                            spec_canonical_suffix(is_post, sorted),
                        ),
                    ),
                ) != expected
            }),
{
    let expected = match base64_decode(signature_b64) {
        Some(v) => v,
        None => {
            return Err(TwilioError::BadRequest);
        },
    };
    let args: Vec<(String, String)> = if is_post {
        args_from_urlencoded(body)
    } else {
        Vec::new()
    };
    let sorted = sorted_unique_params(&args);
    if signature_matches(auth_token, expected.as_slice(), host, path, is_post, &sorted) {
        proof {
            lemma_pairs_map_views(args@);
            lemma_pairs_map_views(sorted@);
            if !is_post {
                assert(args@.take(0) =~= Seq::<(String, String)>::empty());
                assert(args@.map_values(|p: (String, String)| (p.0@, p.1@)) =~= Seq::<
                    (Seq<char>, Seq<char>),
                >::empty());
                if sorted@.len() > 0 {
                    assert(pairs_map(sorted@).contains_key(sorted@.last().0@));
                    assert(pairs_map(args@) =~= Map::<Seq<char>, Seq<char>>::empty());
                    assert(false);
                }
                assert(sorted@.map_values(|p: (String, String)| (p.0@, p.1@)) =~= Seq::<
                    (Seq<char>, Seq<char>),
                >::empty());
            }
        }
        Ok(sorted)
    } else {
        proof {
            lemma_pairs_map_views(args@);
            lemma_pairs_map_views(sorted@);
            if !is_post {
                assert(args@.take(0) =~= Seq::<(String, String)>::empty());
                assert(args@.map_values(|p: (String, String)| (p.0@, p.1@)) =~= Seq::<
                    (Seq<char>, Seq<char>),
                >::empty());
            }
            assert(keys_sorted_unique(sorted@));
        }
        Err(TwilioError::AuthError)
    }
}

/// The form parameters carried by a request path's query part: the decoded
/// query when the path holds exactly one `?`, and nothing otherwise.
pub fn get_args(path: &str) -> (r: Vec<(String, String)>)
    ensures
        ({
            let qs = path@.filter(|c: char| c == '?');
            if qs.len() == 1 {
                exists|i: int|
                    0 <= i < path@.len() && path@[i] == '?' && r@.map_values(
                        |p: (String, String)| (p.0@, p.1@),
                    ) == form_decoded(
                        vstd::utf8::encode_utf8(
                            #[trigger] path@.subrange(i + 1, path@.len() as int),
                        ),
                    )
            } else {
                r@ == Seq::<(String, String)>::empty()
            }
        }),
{
    let n: usize = path.unicode_len();
    let mut i: usize = 0;
    let mut question: Option<usize> = None;
    while i < n
        invariant
            i <= n,
            n == path@.len(),
            match question {
                Some(q) => q < i && path@[q as int] == '?' && path@.take(i as int).filter(
                    |c: char| c == '?',
                ) =~= seq!['?'],
                None => path@.take(i as int).filter(|c: char| c == '?') =~= Seq::<char>::empty(),
            },
        decreases n - i,
    {
        proof {
            assert(path@.take(i + 1).drop_last() =~= path@.take(i as int));
            reveal_with_fuel(Seq::filter, 2);
        }
        if path.get_char(i) == '?' {
            match question {
                Some(_) => {
                    proof {
                        assert(path@.take(n as int) =~= path@);
                        lemma_filter_prefix_two(path@, i as int);
                    }
                    return Vec::new();
                },
                None => {
                    question = Some(i);
                },
            }
        }
        i += 1;
    }
    proof {
        assert(path@.take(n as int) =~= path@);
    }
    match question {
        Some(q) => {
            let query = path.substring_char(q + 1, n);
            let r = args_from_urlencoded(query.as_bytes());
            proof {
                assert(query@ =~= path@.subrange(q + 1, path@.len() as int));
            }
            r
        },
        None => Vec::new(),
    }
}

/// A prefix already holding two question marks keeps the whole text's count
/// above one.
proof fn lemma_filter_prefix_two(s: Seq<char>, i: int)
    requires
        0 <= i < s.len(),
        s[i] == '?',
        s.take(i).filter(|c: char| c == '?').len() >= 1,
    ensures
        s.filter(|c: char| c == '?').len() >= 2,
    decreases s.len() - i,
{
    reveal_with_fuel(Seq::filter, 2);
    if i == s.len() - 1 {
        assert(s.drop_last() =~= s.take(i));
        assert(s.filter(|c: char| c == '?') == s.take(i).filter(|c: char| c == '?').push('?'));
    } else {
        if s.last() == '?' {
            assert(s.drop_last().take(i) =~= s.take(i));
            assert(s.drop_last()[i] == '?');
            lemma_filter_prefix_two(s.drop_last(), i);
            assert(s.filter(|c: char| c == '?').len() >= 2);
        } else {
            assert(s.drop_last().take(i) =~= s.take(i));
            assert(s.drop_last()[i] == '?');
            lemma_filter_prefix_two(s.drop_last(), i);
            assert(s.filter(|c: char| c == '?') == s.drop_last().filter(|c: char| c == '?'));
        }
    }
}

/// The map a list of decoded name/value pairs denotes, a later pair
/// overriding an earlier one.
pub open spec fn pairs_map_v(s: Seq<(Seq<char>, Seq<char>)>) -> Map<Seq<char>, Seq<char>>
    decreases s.len(),
{
    if s.len() == 0 {
        Map::empty()
    } else {
        pairs_map_v(s.drop_last()).insert(s.last().0, s.last().1)
    }
}

/// The two pair-map readings agree: over the pairs themselves and over
/// their views.
proof fn lemma_pairs_map_views(s: Seq<(String, String)>)
    ensures
        pairs_map(s) == pairs_map_v(s.map_values(|p: (String, String)| (p.0@, p.1@))),
    decreases s.len(),
{
    let f = |p: (String, String)| (p.0@, p.1@);
    if s.len() == 0 {
        assert(s.map_values(f) =~= Seq::<(Seq<char>, Seq<char>)>::empty());
        assert(pairs_map(s) =~= pairs_map_v(s.map_values(f)));
    } else {
        lemma_pairs_map_views(s.drop_last());
        assert(s.map_values(f).drop_last() =~= s.drop_last().map_values(f));
        assert(s.map_values(f).last() == f(s.last()));
        assert(pairs_map(s) =~= pairs_map_v(s.map_values(f)));
    }
}

} // verus!
