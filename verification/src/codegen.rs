//! The generated code: which NSIDs it covers, and the digest that pins it
//! against hand edits.

use crate::rows::{find_row, lemma_lookup, lookup};
use crate::text::{
    chars_of, has_prefix, lemma_sorted_listing_unique, push_char, sorted_unique, str_eq,
    strictly_sorted, strings_view,
};
use sha2::Digest;
use vstd::prelude::*;
use vstd::utf8::encode_utf8;

verus! {

// ---- NSIDs of the generated files ----

/// `s` with every trailing `.rs` removed, repeatedly.
pub open spec fn strip_rs(s: Seq<char>) -> Seq<char>
    decreases s.len(),
{
    if s.len() >= 3 && s.subrange(s.len() - 3, s.len() as int) == ".rs"@ {
        strip_rs(s.subrange(0, s.len() - 3))
    } else {
        s
    }
}

/// `s` with every `sep` turned into `.`.
pub open spec fn dotted(s: Seq<char>, sep: char) -> Seq<char> {
    s.map_values(|c: char| if c == sep { '.' } else { c })
}

/// The NSID a generated file stands for: its relative path without the
/// `.rs` suffix and with path separators turned into dots, when that lies
/// in the `tools.kryphocron.` namespace; none for the `mod.rs` files.
pub open spec fn spec_codegen_nsid(rel: Seq<char>, file_name: Seq<char>, sep: char) -> Option<
    Seq<char>,
> {
    if file_name == "mod.rs"@ {
        None
    } else {
        let p = dotted(strip_rs(rel), sep);
        if has_prefix(p, "tools.kryphocron."@) {
            Some(p)
        } else {
            None
        }
    }
}

/// The NSID a generated file stands for, given its path relative to the
/// output root, its file name and the platform's path separator.
pub fn codegen_nsid(rel: &str, file_name: &str, sep: char) -> (r: Option<String>)
    ensures
        match r {
            Some(n) => spec_codegen_nsid(rel@, file_name@, sep) == Some(n@),
            None => spec_codegen_nsid(rel@, file_name@, sep) is None,
        },
{
    proof {
        reveal_strlit(".rs");
    }
    if str_eq(file_name, "mod.rs") {
        return None;
    }
    let cs = chars_of(rel);
    let mut end = cs.len();
    assert(cs@.subrange(0, end as int) =~= rel@);
    while end >= 3 && cs[end - 3] == '.' && cs[end - 2] == 'r' && cs[end - 1] == 's'
        invariant
            end <= cs.len(),
            cs@ == rel@,
            strip_rs(rel@) == strip_rs(cs@.subrange(0, end as int)),
        decreases end,
    {
        proof {
            reveal_strlit(".rs");
            let s = cs@.subrange(0, end as int);
            assert(s.subrange(s.len() - 3, s.len() as int) =~= ".rs"@);
            assert(s.subrange(0, s.len() - 3) =~= cs@.subrange(0, end - 3));
        }
        end = end - 3;
    }
    proof {
        reveal_strlit(".rs");
        let s = cs@.subrange(0, end as int);
        if s.len() >= 3 {
            assert(s.subrange(s.len() - 3, s.len() as int) != ".rs"@) by {
                if s.subrange(s.len() - 3, s.len() as int) == ".rs"@ {
                    assert(s.subrange(s.len() - 3, s.len() as int)[0] == '.');
                    assert(s.subrange(s.len() - 3, s.len() as int)[1] == 'r');
                    assert(s.subrange(s.len() - 3, s.len() as int)[2] == 's');
                }
            }
        }
    }
    let ghost stripped = cs@.subrange(0, end as int);
    let mut out = String::new();
    let mut i: usize = 0;
    while i < end
        invariant
            i <= end <= cs.len(),
            stripped == cs@.subrange(0, end as int),
            out@ == dotted(stripped.subrange(0, i as int), sep),
        decreases end - i,
    {
        let c = cs[i];
        if c == sep {
            push_char(&mut out, '.');
        } else {
            push_char(&mut out, c);
        }
        proof {
            assert(dotted(stripped.subrange(0, i + 1), sep) =~= dotted(
                stripped.subrange(0, i as int),
                sep,
            ).push(if c == sep { '.' } else { c }));
        }
        i = i + 1;
    }
    assert(stripped.subrange(0, end as int) =~= stripped);
    let prefix = "tools.kryphocron.";
    let plen = prefix.unicode_len();
    let olen = out.as_str().unicode_len();
    if plen <= olen && str_eq(out.as_str().substring_char(0, plen), prefix) {
        Some(out)
    } else {
        None
    }
}

/// The NSIDs the generated files stand for, given as (relative path, file
/// name): distinct, in code-point order, as an ordered set collects them.
pub fn codegen_nsids(files: &Vec<(String, String)>, sep: char) -> (r: Vec<String>)
    ensures
        strictly_sorted(strings_view(r@)),
        forall|x: Seq<char>|
            strings_view(r@).contains(x) <==> exists|i: int|
                0 <= i < files.len() && spec_codegen_nsid(files@[i].0@, files@[i].1@, sep) == Some(
                    x,
                ),
{
    let mut found: Vec<String> = Vec::new();
    for i in 0..files.len()
        invariant
            forall|x: Seq<char>|
                strings_view(found@).contains(x) <==> exists|k: int|
                    0 <= k < i && spec_codegen_nsid(files@[k].0@, files@[k].1@, sep) == Some(x),
    {
        let ghost before = strings_view(found@);
        let n = codegen_nsid(files[i].0.as_str(), files[i].1.as_str(), sep);
        match n {
            Some(s) => {
                let ghost sv = s@;
                found.push(s);
                proof {
                    assert(strings_view(found@) =~= before.push(sv));
                    assert forall|x: Seq<char>|
                        strings_view(found@).contains(x) <==> exists|k: int|
                            0 <= k < i + 1 && spec_codegen_nsid(files@[k].0@, files@[k].1@, sep)
                                == Some(x) by {
                        if strings_view(found@).contains(x) && x != sv {
                            let j = choose|j: int|
                                0 <= j < strings_view(found@).len() && strings_view(found@)[j] == x;
                            assert(before[j] == x);
                        }
                        if before.contains(x) {
                            let j = choose|j: int| 0 <= j < before.len() && before[j] == x;
                            assert(strings_view(found@)[j] == x);
                        }
                        if x == sv {
                            assert(strings_view(found@)[before.len() as int] == x);
                        }
                    }
                }
            },
            None => {},
        }
    }
    sorted_unique(&found)
}

/// Generated files only ever stand for NSIDs of the `tools.kryphocron.`
/// namespace, and the `mod.rs` files stand for none.
pub proof fn law_codegen_nsids_in_namespace(rel: Seq<char>, file_name: Seq<char>, sep: char)
    ensures
        spec_codegen_nsid(rel, file_name, sep) matches Some(n) ==> has_prefix(
            n,
            "tools.kryphocron."@,
        ),
        file_name == "mod.rs"@ ==> spec_codegen_nsid(rel, file_name, sep) is None,
{
}

/// The path made of `names`, joined by `sep`.
pub open spec fn joined(names: Seq<Seq<char>>, sep: char) -> Seq<char>
    decreases names.len(),
{
    if names.len() == 0 {
        Seq::empty()
    } else if names.len() == 1 {
        names[0]
    } else {
        joined(names.drop_last(), sep).push(sep) + names.last()
    }
}

/// `s` with every `/` turned into `sep`.
spec fn with_sep(s: Seq<char>, sep: char) -> Seq<char> {
    s.map_values(|c: char| if c == '/' { sep } else { c })
}

/// Names free of `/` and of `sep`, joined by `sep`, are the names joined by
/// `/` with `/` turned into `sep`; and the `/`-joined path holds `sep` only
/// where `sep` is `/`.
proof fn lemma_joined_with_sep(names: Seq<Seq<char>>, sep: char)
    requires
        forall|i: int, j: int|
            0 <= i < names.len() && 0 <= j < names[i].len() ==> #[trigger] names[i][j] != '/'
                && names[i][j] != sep,
    ensures
        joined(names, sep) == with_sep(joined(names, '/'), sep),
        forall|j: int|
            0 <= j < joined(names, '/').len() && #[trigger] joined(names, '/')[j] == sep ==> sep == '/',
    decreases names.len(),
{
    if names.len() > 1 {
        let d = names.drop_last();
        assert forall|i: int, j: int| 0 <= i < d.len() && 0 <= j < d[i].len() implies #[trigger] d[i][j]
            != '/' && d[i][j] != sep by {
            assert(d[i] == names[i]);
        }
        lemma_joined_with_sep(d, sep);
        let l = names.last();
        assert forall|j: int| 0 <= j < l.len() implies l[j] != '/' && l[j] != sep by {
            assert(names[names.len() - 1][j] == l[j]);
        }
        assert(joined(names, sep) =~= with_sep(joined(names, '/'), sep));
        let s = joined(names, '/');
        let h = joined(d, '/');
        assert forall|j: int| 0 <= j < s.len() && #[trigger] s[j] == sep implies sep == '/' by {
            if j < h.len() {
                assert(s[j] == h[j]);
            } else if j > h.len() {
                assert(s[j] == l[j - h.len() - 1]);
            }
        }
    } else if names.len() == 1 {
        assert(joined(names, sep) =~= with_sep(joined(names, '/'), sep)) by {
            assert forall|j: int| 0 <= j < names[0].len() implies names[0][j] != '/' by {}
        }
        assert forall|j: int| 0 <= j < joined(names, '/').len() && #[trigger] joined(names, '/')[j]
            == sep implies sep == '/' by {
            assert(names[0][j] != sep);
        }
    } else {
        assert(joined(names, sep) =~= with_sep(joined(names, '/'), sep));
    }
}

/// Stripping `.rs` commutes with turning `/` into a separator that is none
/// of `.`, `r` and `s`; and it keeps a prefix of the path.
proof fn lemma_strip_rs_with_sep(s: Seq<char>, sep: char)
    requires
        sep != '.' && sep != 'r' && sep != 's',
    ensures
        strip_rs(with_sep(s, sep)) == with_sep(strip_rs(s), sep),
        strip_rs(s).len() <= s.len(),
        forall|j: int| 0 <= j < strip_rs(s).len() ==> #[trigger] strip_rs(s)[j] == s[j],
    decreases s.len(),
{
    reveal_strlit(".rs");
    let t = with_sep(s, sep);
    if s.len() >= 3 {
        let n = s.len() as int;
        let tail_s = s.subrange(n - 3, n);
        let tail_t = t.subrange(n - 3, n);
        assert(tail_t == ".rs"@ <==> tail_s == ".rs"@) by {
            if tail_s == ".rs"@ {
                assert(tail_s[0] == '.' && tail_s[1] == 'r' && tail_s[2] == 's');
                assert(tail_t =~= ".rs"@);
            }
            if tail_t == ".rs"@ {
                assert(tail_t[0] == '.' && tail_t[1] == 'r' && tail_t[2] == 's');
                assert(tail_s =~= ".rs"@);
            }
        }
        if tail_s == ".rs"@ {
            let head = s.subrange(0, n - 3);
            assert(t.subrange(0, n - 3) =~= with_sep(head, sep));
            lemma_strip_rs_with_sep(head, sep);
            assert forall|j: int| 0 <= j < strip_rs(s).len() implies #[trigger] strip_rs(s)[j] == s[j] by {
                assert(strip_rs(head)[j] == head[j]);
            }
        }
    }
}

/// The NSID of a generated file does not depend on the platform's path
/// separator: for names free of `/` and of `sep`, where `sep` is none of
/// `.`, `r` and `s`, the path joined by `sep` (with `sep` given) stands
/// for the same NSID as the path joined by `/`.
pub proof fn law_codegen_nsid_ignores_separator(
    names: Seq<Seq<char>>,
    file_name: Seq<char>,
    sep: char,
)
    requires
        sep != '.' && sep != 'r' && sep != 's',
        forall|i: int, j: int|
            0 <= i < names.len() && 0 <= j < names[i].len() ==> #[trigger] names[i][j] != '/'
                && names[i][j] != sep,
    ensures
        spec_codegen_nsid(joined(names, sep), file_name, sep) == spec_codegen_nsid(
            joined(names, '/'),
            file_name,
            '/',
        ),
{
    lemma_joined_with_sep(names, sep);
    let s = joined(names, '/');
    lemma_strip_rs_with_sep(s, sep);
    let u = strip_rs(s);
    assert(dotted(with_sep(u, sep), sep) =~= dotted(u, '/')) by {
        assert forall|j: int| 0 <= j < u.len() implies (u[j] != '/' ==> u[j] != sep) by {
            assert(u[j] == s[j]);
        }
    }
}

// ---- Digest of the generated code ----

/// The SHA-256 digest of `data`.
pub uninterp spec fn sha256_of(data: Seq<u8>) -> Seq<u8>;

/// `sha2::Sha256::digest`: the SHA-256 digest of `data`, 32 bytes long.
#[verifier::external_body]
fn sha256(data: &[u8]) -> (d: Vec<u8>)
    ensures
        d@ == sha256_of(data@),
        d@.len() == 32,
{
    sha2::Sha256::digest(data).to_vec()
}

/// The lowercase hexadecimal digit of `n`.
pub open spec fn hex_digit(n: int) -> char {
    if n < 10 {
        ((n + 48) as u8) as char
    } else {
        ((n + 87) as u8) as char
    }
}

/// The lowercase hexadecimal rendering of `bytes`, two digits per byte,
/// high nibble first.
pub open spec fn spec_hex(bytes: Seq<u8>) -> Seq<char>
    decreases bytes.len(),
{
    if bytes.len() == 0 {
        Seq::empty()
    } else {
        spec_hex(bytes.drop_last()).push(hex_digit((bytes.last() / 16) as int)).push(
            hex_digit((bytes.last() % 16) as int),
        )
    }
}

fn hex_char(n: u8) -> (c: char)
    requires
        n < 16,
    ensures
        c == hex_digit(n as int),
{
    if n < 10 {
        (n + 48) as char
    } else {
        (n + 87) as char
    }
}

/// Render bytes as lowercase hexadecimal.
pub fn hex(bytes: &[u8]) -> (r: String)
    ensures
        r@ == spec_hex(bytes@),
{
    let mut out = String::new();
    for i in 0..bytes.len()
        invariant
            out@ == spec_hex(bytes@.subrange(0, i as int)),
    {
        let b = bytes[i];
        push_char(&mut out, hex_char(b / 16));
        push_char(&mut out, hex_char(b % 16));
        proof {
            let next = bytes@.subrange(0, i + 1);
            assert(next.drop_last() =~= bytes@.subrange(0, i as int));
            assert(next.last() == b);
        }
    }
    assert(bytes@.subrange(0, bytes@.len() as int) =~= bytes@);
    out
}

/// Whether `c` is a lowercase hexadecimal digit.
pub open spec fn is_lower_hex(c: char) -> bool {
    ('0' <= c && c <= '9') || ('a' <= c && c <= 'f')
}

/// The hexadecimal rendering is two lowercase hexadecimal digits per byte;
/// a SHA-256 digest renders as 64 of them.
pub proof fn law_hex_is_lowercase(bytes: Seq<u8>)
    ensures
        spec_hex(bytes).len() == 2 * bytes.len(),
        forall|i: int| 0 <= i < spec_hex(bytes).len() ==> is_lower_hex(#[trigger] spec_hex(bytes)[i]),
    decreases bytes.len(),
{
    if bytes.len() > 0 {
        law_hex_is_lowercase(bytes.drop_last());
        let b = bytes.last();
        assert(b / 16 < 16 && b % 16 < 16);
        let h = spec_hex(bytes.drop_last());
        assert forall|i: int| 0 <= i < spec_hex(bytes).len() implies is_lower_hex(
            #[trigger] spec_hex(bytes)[i],
        ) by {
            if i < h.len() {
                assert(spec_hex(bytes)[i] == h[i]);
            }
        }
    }
}

/// The bytes hashed for one generated file: its relative path in UTF-8, a
/// zero byte, its contents, a zero byte.
pub open spec fn entry_bytes(path: Seq<char>, content: Seq<u8>) -> Seq<u8> {
    encode_utf8(path) + seq![0u8] + content + seq![0u8]
}

/// The bytes hashed for the generated files: the entries of `paths`, in
/// that order, each with the contents its row gives.
pub open spec fn codegen_message(paths: Seq<Seq<char>>, rows: Seq<(Seq<char>, Seq<u8>)>) -> Seq<u8>
    decreases paths.len(),
{
    if paths.len() == 0 {
        Seq::empty()
    } else {
        codegen_message(paths.drop_last(), rows) + entry_bytes(
            paths.last(),
            lookup(rows, paths.last()).unwrap(),
        )
    }
}

/// The hashed bytes depend only on which contents each path has: two
/// collections of generated files that agree on every path's contents
/// hash the same bytes, in whatever order the files were found.
pub proof fn law_digest_ignores_walk_order(
    p1: Seq<Seq<char>>,
    p2: Seq<Seq<char>>,
    r1: Seq<(Seq<char>, Seq<u8>)>,
    r2: Seq<(Seq<char>, Seq<u8>)>,
)
    requires
        strictly_sorted(p1),
        strictly_sorted(p2),
        forall|x: Seq<char>| p1.contains(x) <==> p2.contains(x),
        forall|x: Seq<char>| p1.contains(x) ==> lookup(r1, x) == lookup(r2, x),
    ensures
        codegen_message(p1, r1) == codegen_message(p2, r2),
{
    lemma_sorted_listing_unique(p1, p2);
    lemma_message_depends_on_lookups(p1, r1, r2);
}

proof fn lemma_message_depends_on_lookups(
    p: Seq<Seq<char>>,
    r1: Seq<(Seq<char>, Seq<u8>)>,
    r2: Seq<(Seq<char>, Seq<u8>)>,
)
    requires
        forall|x: Seq<char>| p.contains(x) ==> lookup(r1, x) == lookup(r2, x),
    ensures
        codegen_message(p, r1) == codegen_message(p, r2),
    decreases p.len(),
{
    if p.len() > 0 {
        assert forall|x: Seq<char>| p.drop_last().contains(x) implies lookup(r1, x) == lookup(r2, x) by {
            let k = choose|k: int| 0 <= k < p.drop_last().len() && p.drop_last()[k] == x;
            assert(p[k] == x);
        }
        lemma_message_depends_on_lookups(p.drop_last(), r1, r2);
        assert(p[p.len() - 1] == p.last());
    }
}

/// Two byte strings that agree on a prefix of the same length are equal
/// exactly when what follows agrees, and likewise for a common suffix.
proof fn lemma_concat_cancel(a1: Seq<u8>, b1: Seq<u8>, a2: Seq<u8>, b2: Seq<u8>)
    requires
        a1.len() == a2.len() || b1.len() == b2.len(),
        a1 + b1 == a2 + b2,
    ensures
        a1 == a2,
        b1 == b2,
{
    assert(a1.len() == a2.len());
    assert(a1 =~= (a1 + b1).subrange(0, a1.len() as int));
    assert(a2 =~= (a2 + b2).subrange(0, a2.len() as int));
    assert(b1 =~= (a1 + b1).subrange(a1.len() as int, (a1 + b1).len() as int));
    assert(b2 =~= (a2 + b2).subrange(a2.len() as int, (a2 + b2).len() as int));
}

/// The bytes of one file's entry tell its contents apart.
proof fn lemma_entry_bytes_injective(path: Seq<char>, c1: Seq<u8>, c2: Seq<u8>)
    requires
        entry_bytes(path, c1) == entry_bytes(path, c2),
    ensures
        c1 == c2,
{
    let e = encode_utf8(path) + seq![0u8];
    assert(entry_bytes(path, c1) =~= e + (c1 + seq![0u8]));
    assert(entry_bytes(path, c2) =~= e + (c2 + seq![0u8]));
    lemma_concat_cancel(e, c1 + seq![0u8], e, c2 + seq![0u8]);
    lemma_concat_cancel(c1, seq![0u8], c2, seq![0u8]);
}

/// Any edit to one generated file changes the hashed bytes: over the same
/// distinct paths, two sets of contents that agree on every path but `k`
/// and differ at `k` give different bytes, wherever `k` lies among the
/// paths.
pub proof fn law_digest_sees_every_edit(
    paths: Seq<Seq<char>>,
    r1: Seq<(Seq<char>, Seq<u8>)>,
    r2: Seq<(Seq<char>, Seq<u8>)>,
    k: Seq<char>,
)
    requires
        forall|i: int, j: int| 0 <= i < j < paths.len() ==> paths[i] != paths[j],
        paths.contains(k),
        forall|x: Seq<char>| paths.contains(x) && x != k ==> lookup(r1, x) == lookup(r2, x),
        lookup(r1, k) is Some,
        lookup(r2, k) is Some,
        lookup(r1, k) != lookup(r2, k),
    ensures
        codegen_message(paths, r1) != codegen_message(paths, r2),
    decreases paths.len(),
{
    let d = paths.drop_last();
    let last = paths.last();
    assert(paths =~= d.push(last));
    assert forall|x: Seq<char>| d.contains(x) implies paths.contains(x) by {
        let i = choose|i: int| 0 <= i < d.len() && d[i] == x;
        assert(paths[i] == x);
    }
    if last == k {
        assert(!d.contains(k)) by {
            if d.contains(k) {
                let i = choose|i: int| 0 <= i < d.len() && d[i] == k;
                assert(paths[i] == paths[paths.len() - 1]);
            }
        }
        lemma_message_depends_on_lookups(d, r1, r2);
        if codegen_message(paths, r1) == codegen_message(paths, r2) {
            lemma_concat_cancel(
                codegen_message(d, r1),
                entry_bytes(k, lookup(r1, k).unwrap()),
                codegen_message(d, r2),
                entry_bytes(k, lookup(r2, k).unwrap()),
            );
            lemma_entry_bytes_injective(k, lookup(r1, k).unwrap(), lookup(r2, k).unwrap());
        }
    } else {
        assert(d.contains(k)) by {
            let i = choose|i: int| 0 <= i < paths.len() && paths[i] == k;
            assert(i != paths.len() - 1);
            assert(d[i] == k);
        }
        assert(paths.contains(last));
        assert forall|i: int, j: int| 0 <= i < j < d.len() implies d[i] != d[j] by {
            assert(d[i] == paths[i] && d[j] == paths[j]);
        }
        law_digest_sees_every_edit(d, r1, r2, k);
        if codegen_message(paths, r1) == codegen_message(paths, r2) {
            lemma_concat_cancel(
                codegen_message(d, r1),
                entry_bytes(last, lookup(r1, last).unwrap()),
                codegen_message(d, r2),
                entry_bytes(last, lookup(r2, last).unwrap()),
            );
        }
    }
}

/// The generated files as rows: relative path and contents.
pub open spec fn file_rows(entries: Seq<(String, Vec<u8>)>) -> Seq<(Seq<char>, Seq<u8>)> {
    entries.map_values(|e: (String, Vec<u8>)| (e.0@, e.1@))
}

/// Append the bytes of `b` to `v`.
fn append_bytes(v: &mut Vec<u8>, b: &[u8])
    ensures
        final(v)@ == old(v)@ + b@,
{
    let ghost start = v@;
    for i in 0..b.len()
        invariant
            v@ == start + b@.subrange(0, i as int),
    {
        v.push(b[i]);
        assert(v@ =~= start + b@.subrange(0, i + 1));
    }
    assert(b@.subrange(0, b.len() as int) =~= b@);
}

/// The digest that pins the generated code: SHA-256 over each file, in
/// order of relative path, of its path, a zero byte, its contents and a
/// zero byte; rendered as lowercase hexadecimal.
pub fn codegen_digest(entries: &Vec<(String, Vec<u8>)>) -> (r: String)
    ensures
        exists|paths: Seq<Seq<char>>|
            {
                &&& strictly_sorted(paths)
                &&& forall|x: Seq<char>|
                    paths.contains(x) <==> strings_view(
                        entries@.map_values(|e: (String, Vec<u8>)| e.0),
                    ).contains(x)
                &&& r@ == spec_hex(sha256_of(codegen_message(paths, file_rows(entries@))))
            },
        r@.len() == 64,
        forall|i: int| 0 <= i < r@.len() ==> is_lower_hex(#[trigger] r@[i]),
{
    let mut keys: Vec<String> = Vec::new();
    for i in 0..entries.len()
        invariant
            keys.len() == i,
            forall|j: int| 0 <= j < i ==> #[trigger] keys@[j] == entries@[j].0,
    {
        keys.push(entries[i].0.clone());
    }
    assert(keys@ =~= entries@.map_values(|e: (String, Vec<u8>)| e.0));
    let paths = sorted_unique(&keys);
    let ghost pv = strings_view(paths@);
    let ghost rows = file_rows(entries@);
    let mut msg: Vec<u8> = Vec::new();
    for i in 0..paths.len()
        invariant
            pv == strings_view(paths@),
            rows == file_rows(entries@),
            keys@ == entries@.map_values(|e: (String, Vec<u8>)| e.0),
            forall|x: Seq<char>| pv.contains(x) <==> strings_view(keys@).contains(x),
            msg@ == codegen_message(pv.subrange(0, i as int), rows),
    {
        let p = &paths[i];
        proof {
            assert(pv[i as int] == p@);
            assert(pv.contains(p@));
        }
        let k = find_row(entries, p.as_str());
        let ghost before = msg@;
        match k {
            Some(k) => {
                append_bytes(&mut msg, p.as_str().as_bytes());
                msg.push(0u8);
                append_bytes(&mut msg, entries[k].1.as_slice());
                msg.push(0u8);
                proof {
                    lemma_lookup(rows, p@);
                    assert forall|j: int| 0 <= j < rows.len() implies #[trigger] rows[j] == (
                        entries@[j].0@,
                        entries@[j].1@,
                    ) by {}
                    assert(rows[k as int].0 == p@);
                    assert(forall|j: int| 0 <= j < k ==> rows[j].0 != p@);
                    assert(lookup(rows, p@) == Some(entries@[k as int].1@));
                    let sub = pv.subrange(0, i + 1);
                    assert(sub.drop_last() =~= pv.subrange(0, i as int));
                    assert(sub.last() == p@);
                    assert(msg@ =~= before + entry_bytes(p@, entries@[k as int].1@));
                }
            },
            None => {
                proof {
                    let j = choose|j: int| 0 <= j < keys.len() && strings_view(keys@)[j] == p@;
                    assert(entries@[j].0@ == p@);
                }
                assert(false);
            },
        }
    }
    assert(pv.subrange(0, paths.len() as int) =~= pv);
    let digest = sha256(msg.as_slice());
    proof {
        law_hex_is_lowercase(digest@);
    }
    hex(digest.as_slice())
}

} // verus!
