//! Device settings as `attentio settings` lists and saves them.

use vstd::prelude::*;
use vstd::string::*;
use vstd::utf8::*;

use crate::device::discovery::{keys_distinct, map_of};
use crate::text::{bytes_lt, str_eq, str_lt, strings_view};

use super::list::{byte_len, max_over, pad_right};

verus! {

/// The keys increase strictly, in byte order.
pub open spec fn keys_increasing(s: Seq<(String, String)>) -> bool {
    forall|i: int, j: int|
        0 <= i < j < s.len() ==> bytes_lt(
            encode_utf8((#[trigger] s[i]).0@),
            encode_utf8((#[trigger] s[j]).0@),
        )
}

/// No byte sequence sorts strictly before itself.
pub proof fn lemma_bytes_lt_irreflexive(a: Seq<u8>)
    ensures
        !bytes_lt(a, a),
    decreases a.len(),
{
    if a.len() > 0 {
        lemma_bytes_lt_irreflexive(a.skip(1));
    }
}

/// The strict byte order is transitive.
pub proof fn lemma_bytes_lt_transitive(a: Seq<u8>, b: Seq<u8>, c: Seq<u8>)
    requires
        bytes_lt(a, b),
        bytes_lt(b, c),
    ensures
        bytes_lt(a, c),
    decreases a.len(),
{
    if a.len() > 0 && b.len() > 0 && c.len() > 0 && a[0] == b[0] && b[0] == c[0] {
        lemma_bytes_lt_transitive(a.skip(1), b.skip(1), c.skip(1));
    }
}

/// Of two different byte sequences one sorts strictly before the other.
pub proof fn lemma_bytes_lt_total(a: Seq<u8>, b: Seq<u8>)
    requires
        a != b,
    ensures
        bytes_lt(a, b) || bytes_lt(b, a),
    decreases a.len(),
{
    if a.len() > 0 && b.len() > 0 && a[0] == b[0] {
        assert(a.skip(1) != b.skip(1)) by {
            if a.skip(1) == b.skip(1) {
                assert(a =~= seq![a[0]] + a.skip(1));
                assert(b =~= seq![b[0]] + b.skip(1));
            }
        }
        lemma_bytes_lt_total(a.skip(1), b.skip(1));
    } else if a.len() == 0 && b.len() == 0 {
        assert(a =~= b);
    }
}

proof fn lemma_increasing_distinct(s: Seq<(String, String)>)
    requires
        keys_increasing(s),
    ensures
        keys_distinct(s),
{
    assert forall|a: int, b: int| 0 <= a < b < s.len() implies (#[trigger] s[a]).0@ != (
    #[trigger] s[b]).0@ by {
        if s[a].0@ == s[b].0@ {
            lemma_bytes_lt_irreflexive(encode_utf8(s[a].0@));
        }
    }
}

proof fn lemma_map_of_insert(s: Seq<(String, String)>, p: int, x: (String, String))
    requires
        0 <= p <= s.len(),
        forall|i: int| 0 <= i < s.len() ==> (#[trigger] s[i]).0@ != x.0@,
    ensures
        map_of(s.insert(p, x)) =~= map_of(s).insert(x.0@, x.1@),
    decreases s.len(),
{
    let t = s.insert(p, x);
    if p == s.len() {
        assert(t.drop_last() =~= s);
    } else {
        assert(t.drop_last() =~= s.drop_last().insert(p, x));
        assert(t.last() == s.last());
        assert forall|i: int| 0 <= i < s.drop_last().len() implies (#[trigger] s.drop_last()[i]).0@
            != x.0@ by {
            assert(s.drop_last()[i] == s[i]);
        }
        lemma_map_of_insert(s.drop_last(), p, x);
        assert(s.last() == s[s.len() - 1]);
    }
}

proof fn lemma_map_of_set(s: Seq<(String, String)>, i: int, e: (String, String))
    requires
        keys_distinct(s),
        0 <= i < s.len(),
        s[i].0@ == e.0@,
    ensures
        map_of(s.update(i, e)) =~= map_of(s).insert(e.0@, e.1@),
    decreases s.len(),
{
    let u = s.update(i, e);
    if i == s.len() - 1 {
        assert(u.drop_last() =~= s.drop_last());
    } else {
        assert(u.drop_last() =~= s.drop_last().update(i, e));
        assert(keys_distinct(s.drop_last())) by {
            assert forall|a: int, b: int| 0 <= a < b < s.drop_last().len() implies (
            #[trigger] s.drop_last()[a]).0@ != (#[trigger] s.drop_last()[b]).0@ by {
                assert(s.drop_last()[a] == s[a] && s.drop_last()[b] == s[b]);
            }
        }
        assert(s.drop_last()[i] == s[i]);
        lemma_map_of_set(s.drop_last(), i, e);
        assert(s[i].0@ != s.last().0@);
        assert(u.last() == s.last());
    }
}

/// The settings keyed by name, sorted by key, each key once with the last
/// value given for it (what collecting into a `BTreeMap` keeps).
pub fn settings_snapshot(entries: Vec<(String, String)>) -> (r: Vec<(String, String)>)
    ensures
        keys_increasing(r@),
        map_of(r@) == map_of(entries@),
{
    let ghost orig = entries@;
    let mut rest = entries;
    let mut out: Vec<(String, String)> = Vec::new();
    let n = rest.len();
    let mut i: usize = 0;
    proof {
        assert(orig.skip(0) =~= orig);
        assert(orig.take(0) =~= Seq::<(String, String)>::empty());
    }
    while i < n
        invariant
            n == orig.len(),
            i <= n,
            rest@ == orig.skip(i as int),
            keys_increasing(out@),
            map_of(out@) == map_of(orig.take(i as int)),
        decreases n - i,
    {
        let x = rest.remove(0);
        proof {
            assert(x == orig[i as int]);
            assert(rest@ =~= orig.skip(i + 1));
            assert(orig.take(i + 1).drop_last() =~= orig.take(i as int));
            assert(orig.take(i + 1).last() == x);
        }
        let mut p: usize = 0;
        while p < out.len() && str_lt(out[p].0.as_str(), x.0.as_str())
            invariant
                p <= out@.len(),
                forall|k: int|
                    0 <= k < p ==> bytes_lt(encode_utf8((#[trigger] out@[k]).0@), encode_utf8(x.0@)),
            decreases out@.len() - p,
        {
            p = p + 1;
        }
        let ghost before = out@;
        proof {
            lemma_increasing_distinct(before);
        }
        if p < out.len() && str_eq(out[p].0.as_str(), x.0.as_str()) {
            proof {
                lemma_map_of_set(before, p as int, x);
            }
            out.set(p, x);
            proof {
                assert forall|a: int, b: int| 0 <= a < b < out@.len() implies bytes_lt(
                    encode_utf8((#[trigger] out@[a]).0@),
                    encode_utf8((#[trigger] out@[b]).0@),
                ) by {
                    assert(out@[a].0@ == before[a].0@);
                    assert(out@[b].0@ == before[b].0@);
                }
            }
        } else {
            let ghost kx = encode_utf8(x.0@);
            proof {
                assert forall|k: int| 0 <= k < before.len() implies (#[trigger] before[k]).0@ != x.0@ by {
                    if k < p {
                        if before[k].0@ == x.0@ {
                            lemma_bytes_lt_irreflexive(kx);
                        }
                    } else {
                        let kp = encode_utf8(before[p as int].0@);
                        assert(!bytes_lt(kp, kx));
                        assert(before[p as int].0@ != x.0@);
                        if k > p && before[k].0@ == x.0@ {
                            assert(bytes_lt(kp, encode_utf8(before[k].0@)));
                        }
                    }
                }
                if p < before.len() {
                    let kp = encode_utf8(before[p as int].0@);
                    assert(before[p as int].0@ != x.0@);
                    assert(kp != kx) by {
                        if kp == kx {
                            assert(decode_utf8(kp) == before[p as int].0@) by {
                                vstd::utf8::encode_utf8_decode_utf8(before[p as int].0@);
                            }
                            assert(decode_utf8(kx) == x.0@) by {
                                vstd::utf8::encode_utf8_decode_utf8(x.0@);
                            }
                        }
                    }
                    lemma_bytes_lt_total(kp, kx);
                    assert(bytes_lt(kx, kp));
                }
                lemma_map_of_insert(before, p as int, x);
            }
            out.insert(p, x);
            proof {
                assert(out@ == before.insert(p as int, x));
                assert forall|a: int, b: int| 0 <= a < b < out@.len() implies bytes_lt(
                    encode_utf8((#[trigger] out@[a]).0@),
                    encode_utf8((#[trigger] out@[b]).0@),
                ) by {
                    let ka = encode_utf8(out@[a].0@);
                    let kb = encode_utf8(out@[b].0@);
                    if b < p {
                        assert(out@[a] == before[a] && out@[b] == before[b]);
                    } else if b == p {
                        assert(out@[a] == before[a]);
                    } else if a < p {
                        assert(out@[a] == before[a] && out@[b] == before[b - 1]);
                        let kp = encode_utf8(before[p as int].0@);
                        if b - 1 > p {
                            lemma_bytes_lt_transitive(kx, kp, kb);
                        }
                        lemma_bytes_lt_transitive(ka, kx, kb);
                    } else if a == p {
                        assert(out@[b] == before[b - 1]);
                        let kp = encode_utf8(before[p as int].0@);
                        if b - 1 > p {
                            lemma_bytes_lt_transitive(ka, kp, kb);
                        }
                    } else {
                        assert(out@[a] == before[a - 1] && out@[b] == before[b - 1]);
                    }
                }
            }
        }
        i = i + 1;
    }
    proof {
        assert(orig.take(n as int) =~= orig);
    }
    out
}

/// The keys of a list of entries are exactly the keys its map holds.
proof fn lemma_map_of_dom(s: Seq<(String, String)>, k: Seq<char>)
    ensures
        map_of(s).dom().contains(k) <==> exists|i: int| 0 <= i < s.len() && (#[trigger] s[i]).0@ == k,
    decreases s.len(),
{
    if s.len() > 0 {
        lemma_map_of_dom(s.drop_last(), k);
        if map_of(s.drop_last()).dom().contains(k) {
            let i = choose|i: int| 0 <= i < s.drop_last().len() && (#[trigger] s.drop_last()[i]).0@ == k;
            assert(s[i] == s.drop_last()[i]);
        }
        if exists|i: int| 0 <= i < s.len() && (#[trigger] s[i]).0@ == k {
            let i = choose|i: int| 0 <= i < s.len() && (#[trigger] s[i]).0@ == k;
            if i < s.len() - 1 {
                assert(s.drop_last()[i] == s[i]);
            }
        }
    }
}

/// Removing the greatest key of a sorted list drops its last entry.
proof fn lemma_map_of_drop_last(s: Seq<(String, String)>)
    requires
        keys_increasing(s),
        s.len() > 0,
    ensures
        map_of(s.drop_last()) =~= map_of(s).remove(s.last().0@),
        keys_increasing(s.drop_last()),
        map_of(s)[s.last().0@] == s.last().1@,
{
    let k = s.last().0@;
    assert forall|i: int| 0 <= i < s.drop_last().len() implies (#[trigger] s.drop_last()[i]).0@ != k by {
        assert(s.drop_last()[i] == s[i]);
        if s[i].0@ == k {
            lemma_bytes_lt_irreflexive(encode_utf8(k));
            assert(s[s.len() - 1] == s.last());
        }
    }
    lemma_map_of_absent_keys(s.drop_last(), k);
    assert forall|i: int, j: int| 0 <= i < j < s.drop_last().len() implies bytes_lt(
        encode_utf8((#[trigger] s.drop_last()[i]).0@),
        encode_utf8((#[trigger] s.drop_last()[j]).0@),
    ) by {
        assert(s.drop_last()[i] == s[i] && s.drop_last()[j] == s[j]);
    }
}

proof fn lemma_map_of_absent_keys(s: Seq<(String, String)>, k: Seq<char>)
    requires
        forall|i: int| 0 <= i < s.len() ==> (#[trigger] s[i]).0@ != k,
    ensures
        !map_of(s).dom().contains(k),
{
    lemma_map_of_dom(s, k);
}

/// A settings snapshot is determined by the settings it holds: two lists
/// with strictly increasing keys (what [`settings_snapshot`] returns) that
/// map the same keys to the same values hold the same entries, in the same
/// order.
pub proof fn lemma_snapshot_canonical(a: Seq<(String, String)>, b: Seq<(String, String)>)
    requires
        keys_increasing(a),
        keys_increasing(b),
        map_of(a) == map_of(b),
    ensures
        a.len() == b.len(),
        forall|i: int| 0 <= i < a.len() ==> (#[trigger] a[i]).0@ == b[i].0@ && a[i].1@ == b[i].1@,
    decreases a.len() + b.len(),
{
    if a.len() == 0 && b.len() == 0 {
        return;
    }
    if a.len() == 0 {
        lemma_map_of_dom(b, b.last().0@);
        assert(b[b.len() - 1] == b.last());
        return;
    }
    if b.len() == 0 {
        lemma_map_of_dom(a, a.last().0@);
        assert(a[a.len() - 1] == a.last());
        return;
    }
    let ka = a.last().0@;
    let kb = b.last().0@;
    assert(a[a.len() - 1] == a.last());
    assert(b[b.len() - 1] == b.last());
    if ka != kb {
        lemma_map_of_dom(a, ka);
        lemma_map_of_dom(b, ka);
        lemma_map_of_dom(a, kb);
        lemma_map_of_dom(b, kb);
        let j = choose|j: int| 0 <= j < b.len() && (#[trigger] b[j]).0@ == ka;
        let i = choose|i: int| 0 <= i < a.len() && (#[trigger] a[i]).0@ == kb;
        assert(j < b.len() - 1);
        assert(i < a.len() - 1);
        assert(bytes_lt(encode_utf8(b[j].0@), encode_utf8(b[b.len() - 1].0@)));
        assert(bytes_lt(encode_utf8(a[i].0@), encode_utf8(a[a.len() - 1].0@)));
        lemma_bytes_lt_transitive(encode_utf8(ka), encode_utf8(kb), encode_utf8(ka));
        lemma_bytes_lt_irreflexive(encode_utf8(ka));
    }
    lemma_map_of_drop_last(a);
    lemma_map_of_drop_last(b);
    lemma_snapshot_canonical(a.drop_last(), b.drop_last());
    assert forall|i: int| 0 <= i < a.len() implies (#[trigger] a[i]).0@ == b[i].0@ && a[i].1@
        == b[i].1@ by {
        if i < a.len() - 1 {
            assert(a.drop_last()[i] == a[i]);
            assert(b.drop_last()[i] == b[i]);
        }
    }
}

/// The lines `attentio settings list` prints: each key padded to the
/// longest key, then its value.
pub open spec fn settings_lines_spec(entries: Seq<(String, String)>) -> Seq<Seq<char>> {
    let w = max_over(entries.map_values(|e: (String, String)| byte_len(e.0@)), 0);
    entries.map_values(|e: (String, String)| "  "@ + pad_right(e.0@, w) + "  "@ + e.1@)
}

/// The lines `attentio settings list` prints.
pub fn settings_lines(entries: &[(String, String)]) -> (lines: Vec<String>)
    ensures
        lines@.map_values(|l: String| l@) == settings_lines_spec(entries@),
{
    let ghost lens = entries@.map_values(|e: (String, String)| byte_len(e.0@));
    let mut w: usize = 0;
    let mut i: usize = 0;
    while i < entries.len()
        invariant
            i <= entries@.len(),
            lens == entries@.map_values(|e: (String, String)| byte_len(e.0@)),
            w == max_over(lens.take(i as int), 0),
        decreases entries@.len() - i,
    {
        let len = entries[i].0.as_str().as_bytes().len();
        proof {
            assert(lens.take(i + 1).drop_last() =~= lens.take(i as int));
        }
        if len > w {
            w = len;
        }
        i = i + 1;
    }
    proof {
        assert(lens.take(entries@.len() as int) =~= lens);
    }
    let mut lines: Vec<String> = Vec::new();
    let mut j: usize = 0;
    while j < entries.len()
        invariant
            j <= entries@.len(),
            w == max_over(lens, 0),
            lens == entries@.map_values(|e: (String, String)| byte_len(e.0@)),
            lines@.map_values(|l: String| l@) == entries@.take(j as int).map_values(
                |e: (String, String)| "  "@ + pad_right(e.0@, w as nat) + "  "@ + e.1@,
            ),
        decreases entries@.len() - j,
    {
        let mut l = "  ".to_owned();
        l.append(super::list::pad_string(entries[j].0.as_str(), w).as_str());
        l.append("  ");
        l.append(entries[j].1.as_str());
        let ghost before = lines@;
        let ghost lv = l@;
        lines.push(l);
        j = j + 1;
        proof {
            let e = entries@[j - 1];
            assert(lv == "  "@ + pad_right(e.0@, w as nat) + "  "@ + e.1@);
            assert(lines@.map_values(|l: String| l@) =~= before.map_values(|l: String| l@).push(lv));
            assert(entries@.take(j as int).map_values(
                |e: (String, String)| "  "@ + pad_right(e.0@, w as nat) + "  "@ + e.1@,
            ) =~= entries@.take(j - 1).map_values(
                |e: (String, String)| "  "@ + pad_right(e.0@, w as nat) + "  "@ + e.1@,
            ).push(lv));
            assert(lines@.map_values(|l: String| l@) =~= entries@.take(j as int).map_values(
                |e: (String, String)| "  "@ + pad_right(e.0@, w as nat) + "  "@ + e.1@,
            ));
        }
    }
    proof {
        assert(entries@.take(entries@.len() as int) =~= entries@);
    }
    lines
}

// ── The settings file ───────────────────────────────────────────────────────

/// The characters of each key and value.
pub open spec fn entry_chars(s: Seq<(String, String)>) -> Seq<(Seq<char>, Seq<char>)> {
    s.map_values(|e: (String, String)| (e.0@, e.1@))
}

/// The settings a settings file's text holds, as `serde_json` reads a JSON
/// object of string values into a map sorted by key; `None` when the text is
/// not such an object.
pub uninterp spec fn settings_json_entries(content: Seq<char>) -> Option<Seq<(Seq<char>, Seq<char>)>>;

/// The text `serde_json` writes, pretty-printed, for a map of settings whose
/// entries, in key order, are these.
pub uninterp spec fn settings_json_text(entries: Seq<(Seq<char>, Seq<char>)>) -> Seq<char>;

/// Reads a settings file's text as a JSON object of string values.
///
/// Trusted: calls `serde_json::from_str` into a `BTreeMap<String, String>`
/// and lists the map. The contract here (not proved) names the outcome
/// [`settings_json_entries`] of the text, and says what `BTreeMap`'s
/// documentation gives: its entries come out in increasing key order, each
/// key once (`String` orders by its bytes).
#[verifier::external_body]
fn settings_from_json(content: &str) -> (r: Option<Vec<(String, String)>>)
    ensures
        settings_json_entries(content@) == (match r {
            Some(v) => Some(entry_chars(v@)),
            None => None::<Seq<(Seq<char>, Seq<char>)>>,
        }),
        r matches Some(v) ==> keys_increasing(v@),
{
    match serde_json::from_str::<std::collections::BTreeMap<String, String>>(content) {
        Ok(m) => Some(m.into_iter().collect()),
        Err(_) => None,
    }
}

/// Writes settings with distinct keys, given in increasing key order, as a
/// pretty-printed JSON object.
///
/// Trusted: calls `serde_json::to_string_pretty` on a `BTreeMap` of the
/// entries. The contract here (not proved) names the text
/// [`settings_json_text`] of the entries. serde_json's documentation says
/// serializing fails only for a `Serialize` impl that fails or for a map
/// with non-string keys, so for string keys it succeeds.
#[verifier::external_body]
fn settings_to_json(entries: &[(String, String)]) -> (r: String)
    requires
        keys_increasing(entries@),
    ensures
        r@ == settings_json_text(entry_chars(entries@)),
{
    let map: std::collections::BTreeMap<&str, &str> = entries.iter().map(
        |e| (e.0.as_str(), e.1.as_str()),
    ).collect();
    match serde_json::to_string_pretty(&map) {
        Ok(text) => text,
        Err(_) => String::new(),
    }
}

/// Reads the settings a settings file holds, sorted by key, each key once;
/// `None` when the text is not a JSON object of string values.
pub fn parse_settings_file(content: &str) -> (r: Option<Vec<(String, String)>>)
    ensures
        (r is None) == (settings_json_entries(content@) is None),
        r matches Some(v) ==> keys_increasing(v@) && Some(entry_chars(v@)) == settings_json_entries(
            content@,
        ),
{
    settings_from_json(content)
}

/// The entries of the snapshot of `entries`: sorted by key, each key once
/// with the last value given for it.
pub open spec fn snapshot_chars(entries: Seq<(String, String)>) -> Seq<(Seq<char>, Seq<char>)> {
    entry_chars(
        choose|v: Seq<(String, String)>| keys_increasing(v) && map_of(v) == map_of(entries),
    )
}

/// Two sorted lists of the same settings have the same characters.
proof fn lemma_snapshot_chars(v: Seq<(String, String)>, entries: Seq<(String, String)>)
    requires
        keys_increasing(v),
        map_of(v) == map_of(entries),
    ensures
        entry_chars(v) == snapshot_chars(entries),
{
    let w = choose|w: Seq<(String, String)>| keys_increasing(w) && map_of(w) == map_of(entries);
    lemma_snapshot_canonical(v, w);
    assert(entry_chars(v) =~= entry_chars(w));
}

/// The text `attentio settings save` writes for these settings: their
/// snapshot as a pretty-printed JSON object.
pub fn settings_file_text(entries: Vec<(String, String)>) -> (r: String)
    ensures
        r@ == settings_json_text(snapshot_chars(entries@)),
{
    let ghost orig = entries@;
    let snap = settings_snapshot(entries);
    proof {
        lemma_snapshot_chars(snap@, orig);
    }
    settings_to_json(snap.as_slice())
}

/// What loading a settings file has done so far: how many settings the
/// device accepted and which keys it refused, in order.
pub struct LoadReport {
    pub applied: usize,
    pub failed: Vec<String>,
}

impl LoadReport {
    /// Nothing applied, nothing refused.
    pub fn new() -> (r: Self)
        ensures
            r.applied == 0,
            r.failed@.len() == 0,
    {
        LoadReport { applied: 0, failed: Vec::new() }
    }
}

/// Records the device's answer to one setting of a load: an accepted
/// setting counts as applied, a refused one has its key listed as failed,
/// and loading goes on either way.
pub fn load_step(report: &mut LoadReport, key: &String, accepted: bool)
    requires
        accepted ==> old(report).applied < usize::MAX,
    ensures
        accepted ==> final(report).applied == old(report).applied + 1 && final(report).failed@
            == old(report).failed@,
        !accepted ==> final(report).applied == old(report).applied && strings_view(
            final(report).failed@,
        ) == strings_view(old(report).failed@).push(key@) && final(report).failed@.len()
            == old(report).failed@.len() + 1,
{
    if accepted {
        report.applied = report.applied + 1;
    } else {
        let ghost before = report.failed@;
        report.failed.push(key.clone());
        proof {
            assert(strings_view(report.failed@) =~= strings_view(before).push(key@));
        }
    }
}

} // verus!
