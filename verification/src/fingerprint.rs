//! Stable content fingerprints for CI formats: FNV-1a (64-bit) over the UTF-8
//! bytes of each part, with a separator byte after every part, rendered as 16
//! lowercase hexadecimal digits.
use vstd::prelude::*;
use vstd::utf8::encode_utf8;
use crate::text::{chars_of, lemma_hex_fixed_len, lemma_trim_idempotent, lemma_trim_keeps_out, decimal, hex_fixed, lemma_split_nonempty, push_decimal, push_hex, push_str, split, string_of, trim, trim_vec};

verus! {

/// Fingerprint key used in SARIF partialFingerprints and other CI formats.
pub const FINGERPRINT_KEY: &'static str = "tools.fallow.fingerprint/v1";

/// Conventional SARIF key consumed by GitHub Code Scanning's alert-correlation
/// engine, emitted beside `FINGERPRINT_KEY`.
pub const GHAS_FINGERPRINT_KEY: &'static str = "primaryLocationLineHash/v1";

/// FNV-1a 64-bit offset basis.
pub const FNV_OFFSET: u64 = 0xcbf2_9ce4_8422_2325;

/// FNV-1a 64-bit prime.
pub const FNV_PRIME: u64 = 0x0100_0000_01b3;

/// One FNV-1a step: xor the byte in, then multiply by the prime modulo 2^64.
pub open spec fn fnv_step(h: u64, b: u8) -> u64 {
    (h ^ (b as u64)).wrapping_mul(FNV_PRIME)
}

/// FNV-1a over `bytes`, starting from state `h`.
pub open spec fn fnv_bytes(h: u64, bytes: Seq<u8>) -> u64
    decreases bytes.len(),
{
    if bytes.len() == 0 {
        h
    } else {
        fnv_step(fnv_bytes(h, bytes.drop_last()), bytes.last())
    }
}

/// The hash state after every part's UTF-8 bytes, each followed by the
/// separator byte `0xff`.
pub open spec fn fnv_parts(parts: Seq<Seq<char>>) -> u64
    decreases parts.len(),
{
    if parts.len() == 0 {
        FNV_OFFSET
    } else {
        fnv_step(fnv_bytes(fnv_parts(parts.drop_last()), encode_utf8(parts.last())), 0xff)
    }
}

/// The fingerprint of `parts`: the final hash as 16 lowercase hex digits.
pub open spec fn fingerprint_of(parts: Seq<Seq<char>>) -> Seq<char> {
    hex_fixed(fnv_parts(parts) as nat, 16)
}

/// The trimmed, non-empty pieces of `ps`, joined by newlines.
pub open spec fn join_kept(ps: Seq<Seq<char>>) -> Seq<char>
    decreases ps.len(),
{
    if ps.len() == 0 {
        Seq::empty()
    } else {
        let prev = join_kept(ps.drop_last());
        let t = trim(ps.last());
        if t.len() == 0 {
            prev
        } else if prev.len() == 0 {
            t
        } else {
            prev + seq!['\n'] + t
        }
    }
}

/// Every line of `s` trimmed, blank lines dropped, the rest joined by `\n`.
pub open spec fn normalized(s: Seq<char>) -> Seq<char> {
    join_kept(split(s, '\n'))
}

/// The views of a slice of string slices.
pub open spec fn views(parts: Seq<&str>) -> Seq<Seq<char>> {
    parts.map_values(|p: &str| p@)
}

/// Normalize a snippet so that whitespace-only edits keep its fingerprint:
/// each line trimmed, blank lines dropped, the rest joined by `\n`.
pub fn normalize_snippet(snippet: &str) -> (r: String)
    ensures
        r@ == normalized(snippet@),
{
    let v = chars_of(snippet);
    let n = v.len();
    let mut out: Vec<char> = Vec::new();
    let mut cur: Vec<char> = Vec::new();
    let ghost mut done: Seq<Seq<char>> = Seq::empty();
    let mut i: usize = 0;
    assert(v@.take(0) =~= Seq::<char>::empty());
    assert(split(Seq::<char>::empty(), '\n') =~= done.push(cur@));
    while i < n
        invariant
            n == v.len(),
            i <= n,
            split(v@.take(i as int), '\n') == done.push(cur@),
            out@ == join_kept(done),
        decreases n - i,
    {
        let c = v[i];
        let ghost before = v@.take(i as int);
        assert(v@.take(i as int + 1).drop_last() =~= before);
        assert(v@.take(i as int + 1).last() == c);
        if c == '\n' {
            let t = trim_vec(&cur);
            let ghost prev = out@;
            if t.len() > 0 {
                if out.len() > 0 {
                    out.push('\n');
                }
                let mut k: usize = 0;
                let ghost base = out@;
                while k < t.len()
                    invariant
                        k <= t.len(),
                        out@ == base + t@.take(k as int),
                    decreases t.len() - k,
                {
                    out.push(t[k]);
                    k = k + 1;
                    assert(out@ =~= base + t@.take(k as int));
                }
                assert(t@.take(t.len() as int) =~= t@);
            }
            proof {
                let ps = done.push(cur@);
                assert(ps.drop_last() =~= done);
                assert(ps.last() == cur@);
                if t@.len() > 0 && prev.len() > 0 {
                    assert(out@ =~= prev + seq!['\n'] + t@);
                } else if t@.len() > 0 {
                    assert(out@ =~= t@);
                } else {
                    assert(out@ =~= prev);
                }
                assert(out@ == join_kept(ps));
                done = ps;
            }
            cur = Vec::new();
            assert(split(v@.take(i as int + 1), '\n') =~= done.push(cur@));
        } else {
            cur.push(c);
            proof {
                lemma_split_nonempty(before, '\n');
            }
            assert(split(v@.take(i as int + 1), '\n') =~= done.push(cur@));
        }
        i = i + 1;
    }
    assert(v@.take(n as int) =~= v@);
    let t = trim_vec(&cur);
    let ghost prev = out@;
    if t.len() > 0 {
        if out.len() > 0 {
            out.push('\n');
        }
        let mut k: usize = 0;
        let ghost base = out@;
        while k < t.len()
            invariant
                k <= t.len(),
                out@ == base + t@.take(k as int),
            decreases t.len() - k,
        {
            out.push(t[k]);
            k = k + 1;
            assert(out@ =~= base + t@.take(k as int));
        }
        assert(t@.take(t.len() as int) =~= t@);
    }
    proof {
        let ps = done.push(cur@);
        assert(ps.drop_last() =~= done);
        if t@.len() > 0 && prev.len() > 0 {
            assert(out@ =~= prev + seq!['\n'] + t@);
        } else if t@.len() > 0 {
            assert(out@ =~= t@);
        } else {
            assert(out@ =~= prev);
        }
    }
    string_of(&out)
}

/// Fold the bytes of `bytes` into the FNV-1a state `h`.
pub(crate) fn fnv_update(h: u64, bytes: &[u8]) -> (r: u64)
    ensures
        r == fnv_bytes(h, bytes@),
{
    let mut hash = h;
    let mut i: usize = 0;
    while i < bytes.len()
        invariant
            i <= bytes@.len(),
            hash == fnv_bytes(h, bytes@.take(i as int)),
        decreases bytes@.len() - i,
    {
        assert(bytes@.take(i as int + 1).drop_last() =~= bytes@.take(i as int));
        hash = (hash ^ (bytes[i] as u64)).wrapping_mul(FNV_PRIME);
        i = i + 1;
    }
    assert(bytes@.take(bytes@.len() as int) =~= bytes@);
    hash
}

/// Deterministic fingerprint over key fields (FNV-1a, 64-bit), stable across
/// Rust versions, rendered as 16 lowercase hexadecimal digits. A separator
/// byte follows every part, so `["ab", "c"]` and `["a", "bc"]` hash apart.
pub fn fingerprint_hash(parts: &[&str]) -> (r: String)
    ensures
        r@ == fingerprint_of(views(parts@)),
{
    let mut hash: u64 = FNV_OFFSET;
    let mut i: usize = 0;
    while i < parts.len()
        invariant
            i <= parts@.len(),
            hash == fnv_parts(views(parts@.take(i as int))),
        decreases parts@.len() - i,
    {
        let ghost ps = views(parts@.take(i as int + 1));
        assert(ps.drop_last() =~= views(parts@.take(i as int)));
        assert(ps.last() == parts@[i as int]@);
        let part: &str = parts[i];
        hash = fnv_update(hash, part.as_bytes());
        hash = (hash ^ 0xffu64).wrapping_mul(FNV_PRIME);
        i = i + 1;
    }
    assert(parts@.take(parts@.len() as int) =~= parts@);
    let mut s = String::new();
    push_hex(&mut s, hash, 16);
    assert(Seq::<char>::empty() + hex_fixed(hash as nat, 16) =~= hex_fixed(hash as nat, 16));
    s
}

/// Fingerprint of one finding: its rule, its path and its normalized snippet.
pub fn finding_fingerprint(rule_id: &str, path: &str, snippet: &str) -> (r: String)
    ensures
        r@ == fingerprint_of(seq![rule_id@, path@, normalized(snippet@)]),
{
    let normalized_snippet = normalize_snippet(snippet);
    let parts = [rule_id, path, normalized_snippet.as_str()];
    let r = fingerprint_hash(&parts);
    assert(views(parts@) =~= seq![rule_id@, path@, normalized(snippet@)]);
    r
}

/// Fingerprint of the review envelope's rendered summary body.
pub fn summary_fingerprint(body: &str) -> (r: String)
    ensures
        r@ == fingerprint_of(seq![body@]),
{
    let parts = [body];
    let r = fingerprint_hash(&parts);
    assert(views(parts@) =~= seq![body@]);
    r
}

/// The key a same-line merged comment hashes: `path:line`.
pub open spec fn linecomp_key(path: Seq<char>, line: u64) -> Seq<char> {
    path + seq![':'] + decimal(line as nat)
}

/// Fingerprint of one `(path, line)` pair: `linecomp:` and the hash of
/// `path:line`, so it stays stable while the findings on that line change.
pub fn linecomp_fingerprint(path: &str, line: u64) -> (r: String)
    ensures
        r@ == "linecomp:"@ + fingerprint_of(seq![linecomp_key(path@, line)]),
{
    let mut key = String::new();
    push_str(&mut key, path);
    key.push(':');
    push_decimal(&mut key, line);
    assert(key@ =~= linecomp_key(path@, line));
    let parts = [key.as_str()];
    let h = fingerprint_hash(&parts);
    assert(views(parts@) =~= seq![linecomp_key(path@, line)]);
    let mut r = String::new();
    push_str(&mut r, "linecomp:");
    push_str(&mut r, h.as_str());
    assert(r@ =~= "linecomp:"@ + h@);
    r
}

/// Every fingerprint is 16 characters, a same-line fingerprint is 25 and starts
/// with `linecomp:`, and a finding's fingerprint depends on its snippet only
/// through the snippet's normalized form.
pub proof fn law_fingerprint_shapes(
    parts: Seq<Seq<char>>,
    rule_id: Seq<char>,
    path: Seq<char>,
    line: u64,
    a: Seq<char>,
    b: Seq<char>,
)
    requires
        normalized(a) == normalized(b),
    ensures
        fingerprint_of(parts).len() == 16,
        ("linecomp:"@ + fingerprint_of(seq![linecomp_key(path, line)])).len() == 25,
        ("linecomp:"@ + fingerprint_of(seq![linecomp_key(path, line)])).take(9) == "linecomp:"@,
        fingerprint_of(seq![rule_id, path, normalized(a)]) == fingerprint_of(
            seq![rule_id, path, normalized(b)],
        ),
{
    reveal_strlit("linecomp:");
    lemma_hex_fixed_len(fnv_parts(parts) as nat, 16);
    let h = fingerprint_of(seq![linecomp_key(path, line)]);
    lemma_hex_fixed_len(fnv_parts(seq![linecomp_key(path, line)]) as nat, 16);
    assert(("linecomp:"@ + h).take(9) =~= "linecomp:"@);
}

/// The kept lines of `ps`: each trimmed, the blank ones dropped.
pub open spec fn kept_lines(ps: Seq<Seq<char>>) -> Seq<Seq<char>>
    decreases ps.len(),
{
    if ps.len() == 0 {
        Seq::empty()
    } else if trim(ps.last()).len() == 0 {
        kept_lines(ps.drop_last())
    } else {
        kept_lines(ps.drop_last()).push(trim(ps.last()))
    }
}

/// `ts` joined by newlines.
pub open spec fn join_lines(ts: Seq<Seq<char>>) -> Seq<char>
    decreases ts.len(),
{
    if ts.len() == 0 {
        Seq::empty()
    } else if ts.len() == 1 {
        ts[0]
    } else {
        join_lines(ts.drop_last()) + seq!['\n'] + ts.last()
    }
}

/// No piece holds a newline.
pub open spec fn no_newlines(ts: Seq<Seq<char>>) -> bool {
    forall|k: int, j: int| 0 <= k < ts.len() && 0 <= j < ts[k].len() ==> #[trigger] ts[k][j] != '\n'
}

/// Every piece is a non-empty, already trimmed line.
pub open spec fn clean_lines(ts: Seq<Seq<char>>) -> bool {
    &&& no_newlines(ts)
    &&& forall|k: int| 0 <= k < ts.len() ==> (#[trigger] ts[k]).len() > 0 && trim(ts[k]) == ts[k]
}

proof fn lemma_join_lines_nonempty(ts: Seq<Seq<char>>)
    requires
        ts.len() > 0,
        ts.last().len() > 0,
    ensures
        join_lines(ts).len() > 0,
{
}

proof fn lemma_kept_lines(ps: Seq<Seq<char>>)
    requires
        no_newlines(ps),
    ensures
        clean_lines(kept_lines(ps)),
        join_kept(ps) == join_lines(kept_lines(ps)),
    decreases ps.len(),
{
    if ps.len() > 0 {
        let d = ps.drop_last();
        assert(no_newlines(d)) by {
            assert forall|k: int, j: int| 0 <= k < d.len() && 0 <= j < d[k].len() implies #[trigger] d[k][j]
                != '\n' by {
                assert(d[k] == ps[k]);
            }
        }
        lemma_kept_lines(d);
        let t = trim(ps.last());
        if t.len() > 0 {
            let kd = kept_lines(d);
            let k2 = kd.push(t);
            assert(k2.drop_last() =~= kd);
            lemma_trim_idempotent(ps.last());
            assert forall|j: int| 0 <= j < ps.last().len() implies ps.last()[j] != '\n' by {
                assert(ps[ps.len() - 1][j] != '\n');
            }
            lemma_trim_keeps_out(ps.last(), '\n');
            assert forall|k: int, j: int| 0 <= k < k2.len() && 0 <= j < k2[k].len() implies #[trigger] k2[k][j]
                != '\n' by {
                if k < kd.len() {
                    assert(k2[k] == kd[k]);
                    assert(kd[k][j] != '\n');
                }
            }
            assert forall|k: int| 0 <= k < k2.len() implies (#[trigger] k2[k]).len() > 0 && trim(k2[k]) == k2[k] by {
                if k < kd.len() {
                    assert(k2[k] == kd[k]);
                }
            }
            if kd.len() > 0 {
                lemma_join_lines_nonempty(kd);
            }
        }
    }
}

/// Splitting `x` followed by text without the separator extends the last piece.
proof fn lemma_split_extend(x: Seq<char>, y: Seq<char>, sep: char)
    requires
        forall|j: int| 0 <= j < y.len() ==> y[j] != sep,
    ensures
        split(x + y, sep) == split(x, sep).update(split(x, sep).len() - 1, split(x, sep).last() + y),
    decreases y.len(),
{
    lemma_split_nonempty(x, sep);
    if y.len() == 0 {
        assert(x + y =~= x);
        assert(split(x, sep).last() + y =~= split(x, sep).last());
        assert(split(x, sep).update(split(x, sep).len() - 1, split(x, sep).last()) =~= split(x, sep));
    } else {
        let y0 = y.drop_last();
        lemma_split_extend(x, y0, sep);
        assert((x + y).drop_last() =~= x + y0);
        assert((x + y).last() == y.last());
        let r = split(x + y0, sep);
        assert(r.last() =~= split(x, sep).last() + y0);
        assert(split(x, sep).last() + y =~= (split(x, sep).last() + y0).push(y.last()));
        assert(split(x + y, sep) =~= split(x, sep).update(split(x, sep).len() - 1, split(x, sep).last() + y));
    }
}

/// Splitting lines joined by newlines gives the lines back.
proof fn lemma_split_join(ts: Seq<Seq<char>>)
    requires
        ts.len() > 0,
        no_newlines(ts),
    ensures
        split(join_lines(ts), '\n') == ts,
    decreases ts.len(),
{
    let t = ts.last();
    assert forall|j: int| 0 <= j < t.len() implies t[j] != '\n' by {
        assert(ts[ts.len() - 1][j] != '\n');
    }
    if ts.len() == 1 {
        lemma_split_extend(Seq::empty(), t, '\n');
        assert(Seq::<char>::empty() + t =~= t);
        assert(split(Seq::<char>::empty(), '\n').update(0, Seq::<char>::empty() + t) =~= ts);
    } else {
        let d = ts.drop_last();
        assert(no_newlines(d)) by {
            assert forall|k: int, j: int| 0 <= k < d.len() && 0 <= j < d[k].len() implies #[trigger] d[k][j]
                != '\n' by {
                assert(d[k] == ts[k]);
            }
        }
        lemma_split_join(d);
        let a = join_lines(d).push('\n');
        assert(a.drop_last() =~= join_lines(d));
        assert(split(a, '\n') == d.push(Seq::empty()));
        lemma_split_extend(a, t, '\n');
        assert(join_lines(d) + seq!['\n'] + t =~= a + t);
        assert(Seq::<char>::empty() + t =~= t);
        assert(d.push(Seq::empty()).update(d.len() as int, Seq::<char>::empty() + t) =~= ts);
    }
}

/// Lines that are already clean are kept as they are.
proof fn lemma_kept_clean(ts: Seq<Seq<char>>)
    requires
        clean_lines(ts),
    ensures
        kept_lines(ts) == ts,
    decreases ts.len(),
{
    if ts.len() > 0 {
        let d = ts.drop_last();
        assert(clean_lines(d)) by {
            assert forall|k: int, j: int| 0 <= k < d.len() && 0 <= j < d[k].len() implies #[trigger] d[k][j]
                != '\n' by {
                assert(d[k] == ts[k]);
            }
            assert forall|k: int| 0 <= k < d.len() implies (#[trigger] d[k]).len() > 0 && trim(d[k]) == d[k] by {
                assert(d[k] == ts[k]);
            }
        }
        lemma_kept_clean(d);
        assert(ts[ts.len() - 1].len() > 0 && trim(ts[ts.len() - 1]) == ts[ts.len() - 1]);
        assert(d.push(ts.last()) =~= ts);
    }
}

/// The pieces of a split hold no separator.
proof fn lemma_split_pieces(s: Seq<char>)
    ensures
        no_newlines(split(s, '\n')),
    decreases s.len(),
{
    if s.len() > 0 {
        lemma_split_pieces(s.drop_last());
        lemma_split_nonempty(s.drop_last(), '\n');
        let r = split(s.drop_last(), '\n');
        if s.last() != '\n' {
            let r2 = r.update(r.len() - 1, r.last().push(s.last()));
            assert forall|k: int, j: int| 0 <= k < r2.len() && 0 <= j < r2[k].len() implies #[trigger] r2[k][j]
                != '\n' by {
                if k < r.len() - 1 {
                    assert(r2[k] == r[k]);
                } else if j < r.last().len() {
                    assert(r2[k][j] == r[r.len() - 1][j]);
                }
            }
        } else {
            let r2 = r.push(Seq::<char>::empty());
            assert forall|k: int, j: int| 0 <= k < r2.len() && 0 <= j < r2[k].len() implies #[trigger] r2[k][j]
                != '\n' by {
                assert(r2[k] == r[k]);
            }
        }
    }
}

/// Normalizing a normalized snippet changes nothing, so a finding's
/// fingerprint is the same for its snippet and for that snippet's normalized
/// form: whitespace at the edges of lines and blank lines never move it.
pub proof fn law_normalizing_is_idempotent(s: Seq<char>, rule_id: Seq<char>, path: Seq<char>)
    ensures
        normalized(normalized(s)) == normalized(s),
        fingerprint_of(seq![rule_id, path, normalized(normalized(s))]) == fingerprint_of(
            seq![rule_id, path, normalized(s)],
        ),
{
    let ps = split(s, '\n');
    lemma_split_pieces(s);
    lemma_kept_lines(ps);
    let k = kept_lines(ps);
    if k.len() == 0 {
        assert(normalized(s) == Seq::<char>::empty());
        assert(split(Seq::<char>::empty(), '\n') == seq![Seq::<char>::empty()]);
        let e = seq![Seq::<char>::empty()];
        assert(e.drop_last() =~= Seq::<Seq<char>>::empty());
        assert(trim(e.last()) =~= Seq::<char>::empty());
        assert(join_kept(e) == join_kept(e.drop_last()));
    } else {
        lemma_split_join(k);
        lemma_kept_lines(k);
        lemma_kept_clean(k);
    }
}

proof fn lemma_join_kept_trims(ps: Seq<Seq<char>>, qs: Seq<Seq<char>>)
    requires
        ps.len() == qs.len(),
        forall|i: int| 0 <= i < ps.len() ==> trim(#[trigger] ps[i]) == trim(qs[i]),
    ensures
        join_kept(ps) == join_kept(qs),
    decreases ps.len(),
{
    if ps.len() > 0 {
        let (a, b) = (ps.drop_last(), qs.drop_last());
        assert forall|i: int| 0 <= i < a.len() implies trim(#[trigger] a[i]) == trim(b[i]) by {
            assert(a[i] == ps[i] && b[i] == qs[i]);
        }
        lemma_join_kept_trims(a, b);
        assert(trim(ps[ps.len() - 1]) == trim(qs[qs.len() - 1]));
    }
}

proof fn lemma_join_kept_blank(ps: Seq<Seq<char>>, k: int, blank: Seq<char>)
    requires
        0 <= k <= ps.len(),
        trim(blank).len() == 0,
    ensures
        join_kept(ps.insert(k, blank)) == join_kept(ps),
    decreases ps.len(),
{
    let q = ps.insert(k, blank);
    if k == ps.len() {
        assert(q.drop_last() =~= ps);
        assert(q.last() == blank);
    } else {
        lemma_join_kept_blank(ps.drop_last(), k, blank);
        assert(q.drop_last() =~= ps.drop_last().insert(k, blank));
        assert(q.last() == ps.last());
    }
}

proof fn lemma_normalized_join(ps: Seq<Seq<char>>)
    requires
        ps.len() > 0,
        no_newlines(ps),
    ensures
        normalized(join_lines(ps)) == join_kept(ps),
{
    lemma_split_join(ps);
}

/// Text whose lines differ only by whitespace at their ends, or by an added
/// blank line, normalizes alike, and so gives a finding the same
/// fingerprint: `ps` and `qs` are the lines of two texts (no line holds a
/// newline), each line of `qs` trimming to the same as that of `ps`, and
/// `blank` is a line of whitespace inserted at position `k`.
pub proof fn law_layout_does_not_move_normalization(
    ps: Seq<Seq<char>>,
    qs: Seq<Seq<char>>,
    k: int,
    blank: Seq<char>,
)
    requires
        ps.len() > 0,
        no_newlines(ps),
        no_newlines(qs),
        qs.len() == ps.len(),
        forall|i: int| 0 <= i < ps.len() ==> trim(#[trigger] ps[i]) == trim(qs[i]),
        0 <= k <= ps.len(),
        trim(blank).len() == 0,
        forall|j: int| 0 <= j < blank.len() ==> blank[j] != '\n',
    ensures
        normalized(join_lines(qs)) == normalized(join_lines(ps)),
        normalized(join_lines(ps.insert(k, blank))) == normalized(join_lines(ps)),
{
    lemma_normalized_join(ps);
    lemma_normalized_join(qs);
    lemma_join_kept_trims(ps, qs);
    let q = ps.insert(k, blank);
    assert(no_newlines(q)) by {
        assert forall|i: int, j: int| 0 <= i < q.len() && 0 <= j < q[i].len() implies #[trigger] q[i][j] != '\n' by {
            if i < k {
                assert(q[i] == ps[i]);
            } else if i == k {
                assert(q[i] == blank);
            } else {
                assert(q[i] == ps[i - 1]);
            }
        }
    }
    lemma_normalized_join(q);
    lemma_join_kept_blank(ps, k, blank);
}

} // verus!
