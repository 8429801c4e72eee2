//! The three-way consistency of lexicon documents, manifest and generated
//! code: all three name the same NSIDs.

use crate::error::BuildError;
use crate::text::{contains_str, strings_view};
use vstd::prelude::*;

verus! {

/// The members of `a` that `b` lacks, in the order of `a`.
pub open spec fn minus(a: Seq<Seq<char>>, b: Seq<Seq<char>>) -> Seq<Seq<char>>
    decreases a.len(),
{
    if a.len() == 0 {
        Seq::empty()
    } else {
        let r = minus(a.drop_last(), b);
        if b.contains(a.last()) {
            r
        } else {
            r.push(a.last())
        }
    }
}

/// A member of `a` that `b` lacks is what `minus` lists.
pub proof fn lemma_minus_contains(a: Seq<Seq<char>>, b: Seq<Seq<char>>, x: Seq<char>)
    ensures
        minus(a, b).contains(x) <==> a.contains(x) && !b.contains(x),
    decreases a.len(),
{
    if a.len() > 0 {
        lemma_minus_contains(a.drop_last(), b, x);
        let r = minus(a.drop_last(), b);
        assert(a =~= a.drop_last().push(a.last()));
        if r.push(a.last()).contains(x) && x != a.last() {
            let k = choose|k: int| 0 <= k < r.len() + 1 && r.push(a.last())[k] == x;
            assert(r[k] == x);
        }
        if r.contains(x) {
            let k = choose|k: int| 0 <= k < r.len() && r[k] == x;
            assert(r.push(a.last())[k] == x);
        }
        if a.contains(x) && x != a.last() {
            let k = choose|k: int| 0 <= k < a.len() && a[k] == x;
            assert(a.drop_last()[k] == x);
        }
        if a.drop_last().contains(x) {
            let k = choose|k: int| 0 <= k < a.drop_last().len() && a.drop_last()[k] == x;
            assert(a[k] == x);
        }
        assert(r.push(a.last())[r.len() as int] == a.last());
        assert(a[a.len() - 1] == a.last());
    }
}

/// The members of `a` that `b` lacks, in the order of `a`.
fn difference(a: &Vec<String>, b: &Vec<String>) -> (r: Vec<String>)
    ensures
        strings_view(r@) == minus(strings_view(a@), strings_view(b@)),
{
    let mut r: Vec<String> = Vec::new();
    for i in 0..a.len()
        invariant
            strings_view(r@) == minus(strings_view(a@.subrange(0, i as int)), strings_view(b@)),
    {
        let ghost pre = strings_view(a@.subrange(0, i as int));
        proof {
            assert(strings_view(a@.subrange(0, i + 1)).drop_last() =~= pre);
            assert(strings_view(a@.subrange(0, i + 1)).last() == a@[i as int]@);
        }
        if !contains_str(b, a[i].as_str()) {
            r.push(a[i].clone());
            proof {
                assert(strings_view(r@) =~= minus(pre, strings_view(b@)).push(a@[i as int]@));
            }
        }
    }
    proof {
        assert(a@.subrange(0, a.len() as int) =~= a@);
    }
    r
}

/// Check that the lexicon documents, the manifest and the generated code
/// name the same NSIDs.
///
/// # Errors
///
/// [`BuildError::NsidSetMismatch`], listing each of the four differences in
/// the order of its first operand, unless all four are empty.
pub fn three_way_consistency_check(
    lexicon: &Vec<String>,
    manifest: &Vec<String>,
    codegen: &Vec<String>,
) -> (r: Result<(), BuildError>)
    ensures
        ({
            let l = strings_view(lexicon@);
            let m = strings_view(manifest@);
            let c = strings_view(codegen@);
            let empty = minus(l, m).len() == 0 && minus(m, l).len() == 0 && minus(l, c).len() == 0
                && minus(c, l).len() == 0;
            &&& r is Ok <==> empty
            &&& r matches Err(e) ==> e matches BuildError::NsidSetMismatch {
                lexicon_minus_manifest: lm,
                manifest_minus_lexicon: ml,
                lexicon_minus_codegen: lc,
                codegen_minus_lexicon: cl,
            } && strings_view(lm@) == minus(l, m) && strings_view(ml@) == minus(m, l)
                && strings_view(lc@) == minus(l, c) && strings_view(cl@) == minus(c, l)
        }),
{
    let lexicon_minus_manifest = difference(lexicon, manifest);
    let manifest_minus_lexicon = difference(manifest, lexicon);
    let lexicon_minus_codegen = difference(lexicon, codegen);
    let codegen_minus_lexicon = difference(codegen, lexicon);
    if lexicon_minus_manifest.len() == 0 && manifest_minus_lexicon.len() == 0
        && lexicon_minus_codegen.len() == 0 && codegen_minus_lexicon.len() == 0 {
        return Ok(());
    }
    Err(
        BuildError::NsidSetMismatch {
            lexicon_minus_manifest,
            manifest_minus_lexicon,
            lexicon_minus_codegen,
            codegen_minus_lexicon,
        },
    )
}

/// The three-way check passes exactly when the lexicon documents, the
/// manifest and the generated code name the same set of NSIDs.
pub proof fn law_consistency_is_set_equality(
    l: Seq<Seq<char>>,
    m: Seq<Seq<char>>,
    c: Seq<Seq<char>>,
)
    ensures
        (minus(l, m).len() == 0 && minus(m, l).len() == 0 && minus(l, c).len() == 0 && minus(
            c,
            l,
        ).len() == 0) <==> (forall|x: Seq<char>| l.contains(x) <==> m.contains(x)) && (forall|
            x: Seq<char>,
        | l.contains(x) <==> c.contains(x)),
{
    assert forall|a: Seq<Seq<char>>, b: Seq<Seq<char>>|
        minus(a, b).len() == 0 <==> (forall|x: Seq<char>| a.contains(x) ==> b.contains(x)) by {
        if minus(a, b).len() > 0 {
            lemma_minus_contains(a, b, minus(a, b)[0]);
            assert(minus(a, b).contains(minus(a, b)[0]));
        }
        assert forall|x: Seq<char>| minus(a, b).len() == 0 && a.contains(x) implies b.contains(x) by {
            lemma_minus_contains(a, b, x);
        }
    }
}

} // verus!
