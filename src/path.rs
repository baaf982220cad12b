//! Node paths: the per-item template, the path of each item, and the
//! intermediate nodes the namespace needs before items can be created.
use vstd::prelude::*;
use vstd::string::StringExecFns;

verus! {

/// The character for a decimal digit.
pub open spec fn digit_char(d: nat) -> char {
    seq!['0', '1', '2', '3', '4', '5', '6', '7', '8', '9'][d as int]
}

/// The decimal rendering of `n`: no sign, no leading zeros.
pub open spec fn decimal(n: nat) -> Seq<char>
    decreases n,
{
    if n < 10 {
        seq![digit_char(n)]
    } else {
        decimal(n / 10).push(digit_char(n % 10))
    }
}

/// The pieces of `s` between `/` separators, empty pieces included: a string
/// without separator is one piece.
pub open spec fn segments(s: Seq<char>) -> Seq<Seq<char>>
    decreases s.len(),
{
    if s.len() == 0 {
        seq![Seq::empty()]
    } else {
        let prev = segments(s.drop_last());
        if s.last() == '/' {
            prev.push(Seq::empty())
        } else {
            prev.update(prev.len() - 1, prev.last().push(s.last()))
        }
    }
}

/// All but the last element; an empty sequence stays empty.
pub open spec fn without_last<T>(s: Seq<T>) -> Seq<T> {
    if s.len() == 0 {
        s
    } else {
        s.drop_last()
    }
}

/// The views of a sequence of strings.
pub open spec fn views(v: Seq<String>) -> Seq<Seq<char>> {
    v.map_values(|s: String| s@)
}

/// The absolute path made of the non-empty pieces, in order.
pub open spec fn joined_path(pieces: Seq<Seq<char>>) -> Seq<char>
    decreases pieces.len(),
{
    if pieces.len() == 0 {
        Seq::empty()
    } else {
        let prev = joined_path(pieces.drop_last());
        if pieces.last().len() == 0 {
            prev
        } else {
            prev + seq!['/'] + pieces.last()
        }
    }
}

/// The path reached after each non-empty piece, from the root down.
pub open spec fn path_walk(pieces: Seq<Seq<char>>) -> Seq<Seq<char>>
    decreases pieces.len(),
{
    if pieces.len() == 0 {
        Seq::empty()
    } else {
        let prev = path_walk(pieces.drop_last());
        if pieces.last().len() == 0 {
            prev
        } else {
            prev.push(joined_path(pieces))
        }
    }
}

/// The nodes to create under the root before items of `template` can be
/// created: each ancestor path of the template's final segment.
pub open spec fn ancestors(template: Seq<char>) -> Seq<Seq<char>> {
    path_walk(without_last(segments(template)))
}

/// Whether `s` holds no `/`.
pub open spec fn no_slash(s: Seq<char>) -> bool {
    forall|i: int| 0 <= i < s.len() ==> #[trigger] s[i] != '/'
}

proof fn lemma_segments_append(x: Seq<char>, y: Seq<char>)
    requires
        no_slash(y),
    ensures
        segments(x + seq!['/'] + y) == segments(x).push(y),
    decreases y.len(),
{
    let s = x + seq!['/'] + y;
    if y.len() == 0 {
        assert(s.drop_last() =~= x);
        assert(y =~= Seq::<char>::empty());
    } else {
        let y0 = y.drop_last();
        assert(no_slash(y0));
        lemma_segments_append(x, y0);
        assert(s.drop_last() =~= x + seq!['/'] + y0);
        assert(s.last() == y.last());
        assert(y0.push(y.last()) =~= y);
        assert(segments(x).push(y0).update(segments(x).len() as int, y) =~= segments(x).push(y));
    }
}

proof fn lemma_segments_single(y: Seq<char>)
    requires
        no_slash(y),
    ensures
        segments(y) == seq![y],
    decreases y.len(),
{
    if y.len() == 0 {
        assert(y =~= Seq::<char>::empty());
    } else {
        let y0 = y.drop_last();
        assert(no_slash(y0));
        lemma_segments_single(y0);
        assert(y0.push(y.last()) =~= y);
        assert(seq![y0].update(0, y) =~= seq![y]);
    }
}

/// The intermediate nodes of the template for `prefix` are the nodes along
/// the prefix itself, and for a prefix `/name` of one segment the prefix is
/// the only one: the item template is never created.
pub proof fn lemma_template_ancestors(prefix: Seq<char>)
    ensures
        ancestors(prefix + "/test-node"@) == path_walk(segments(prefix)),
        prefix.len() > 1 && prefix[0] == '/' && no_slash(prefix.drop_first()) ==> ancestors(
            prefix + "/test-node"@,
        ) == seq![prefix],
{
    reveal_strlit("/test-node");
    let leaf = "/test-node"@.drop_first();
    assert(no_slash(leaf));
    assert(prefix + "/test-node"@ =~= prefix + seq!['/'] + leaf);
    lemma_segments_append(prefix, leaf);
    assert(without_last(segments(prefix).push(leaf)) =~= segments(prefix));
    if prefix.len() > 1 && prefix[0] == '/' && no_slash(prefix.drop_first()) {
        let name = prefix.drop_first();
        assert(prefix =~= Seq::<char>::empty() + seq!['/'] + name);
        lemma_segments_append(Seq::<char>::empty(), name);
        lemma_segments_single(Seq::<char>::empty());
        let pieces = seq![Seq::<char>::empty(), name];
        assert(segments(prefix) =~= pieces);
        let w = seq![Seq::<char>::empty()];
        assert(pieces.drop_last() =~= w);
        assert(w.drop_last() =~= Seq::<Seq<char>>::empty());
        assert(w.last().len() == 0);
        assert(path_walk(Seq::<Seq<char>>::empty()) == Seq::<Seq<char>>::empty());
        assert(joined_path(Seq::<Seq<char>>::empty()) == Seq::<char>::empty());
        assert(path_walk(w) == path_walk(w.drop_last()));
        assert(joined_path(w) == joined_path(w.drop_last()));
        assert(path_walk(w) =~= Seq::<Seq<char>>::empty());
        assert(joined_path(w) =~= Seq::<char>::empty());
        assert(joined_path(pieces) =~= prefix);
        assert(path_walk(pieces) =~= seq![prefix]);
    }
}

/// Relies on `ToString` for `u128` (through `Display`): the plain decimal
/// digits of the value.
#[verifier::external_body]
fn decimal_string(n: u128) -> (r: String)
    ensures
        r@ == decimal(n as nat),
{
    n.to_string()
}

/// Relies on `str::split` with a `char` pattern: the pieces between
/// separators, in order, empty ones included.
#[verifier::external_body]
fn split_slash(s: &str) -> (r: Vec<String>)
    ensures
        views(r@) == segments(s@),
{
    s.split('/').map(String::from).collect()
}

/// `v` without its last element; an empty vector is returned unchanged.
pub fn skip_last<T>(v: Vec<T>) -> (r: Vec<T>)
    ensures
        r@ == without_last(v@),
{
    let mut v = v;
    if v.len() > 0 {
        v.pop();
    }
    v
}

/// The decimal rendering of `n`.
pub fn decimal_text(n: u128) -> (r: String)
    ensures
        r@ == decimal(n as nat),
{
    decimal_string(n)
}

/// The template that item paths extend: `prefix` followed by `/test-node`.
pub fn node_path_template(prefix: &str) -> (r: String)
    ensures
        r@ == prefix@ + "/test-node"@,
{
    String::from_str(prefix).concat("/test-node")
}

/// The path of item `index`: the template directly followed by the index in
/// decimal, without separator or padding.
pub fn node_path(template: &str, index: u32) -> (r: String)
    ensures
        r@ == template@ + decimal(index as nat),
{
    let digits = decimal_string(index as u128);
    String::from_str(template).concat(digits.as_str())
}

/// The intermediate nodes that preparation creates, from the root down: every
/// ancestor of the template's last segment, empty segments skipped. For
/// `/zoobench/test-node` this is just `/zoobench`.
pub fn intermediate_paths(template: &str) -> (r: Vec<String>)
    ensures
        views(r@) == ancestors(template@),
{
    let pieces = skip_last(split_slash(template));
    let ghost pv = views(pieces@);
    proof {
        assert(pv == without_last(segments(template@)));
    }
    let mut out: Vec<String> = Vec::new();
    let mut acc = String::new();
    let mut i: usize = 0;
    while i < pieces.len()
        invariant
            0 <= i <= pieces.len(),
            pv == views(pieces@),
            views(out@) == path_walk(pv.take(i as int)),
            acc@ == joined_path(pv.take(i as int)),
        decreases pieces.len() - i,
    {
        let p = &pieces[i];
        proof {
            assert(pv.take(i + 1).drop_last() =~= pv.take(i as int));
            assert(pv.take(i + 1).last() == p@);
        }
        if !p.as_str().is_empty() {
            proof {
                reveal_strlit("/");
            }
            acc.append("/");
            acc.append(p.as_str());
            out.push(acc.clone());
            proof {
                assert(views(out@) =~= path_walk(pv.take(i as int)).push(acc@));
                assert(joined_path(pv.take(i + 1)) == acc@);
                assert(path_walk(pv.take(i + 1)) == path_walk(pv.take(i as int)).push(acc@));
            }
        } else {
            proof {
                assert(path_walk(pv.take(i + 1)) == path_walk(pv.take(i as int)));
            }
        }
        i = i + 1;
    }
    proof {
        assert(pv.take(i as int) =~= pv);
    }
    out
}

} // verus!
