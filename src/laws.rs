//! Properties of the classification, stated over [`classify`].
use vstd::prelude::*;
use crate::args::{
    assigned_name, assigned_value, classify, clear_edit, combine, first_equals, is_ignore_flag,
    is_plain, is_unset_flag, is_valid_assignment, lemma_prefixed_prefixed, prefixed, set_edit,
    unset_edit,
};

verus! {

/// When every token before position `k` is `-i`, `--ignore-environment` or a
/// well-formed assignment, and the token at `k` is plain, the classification
/// succeeds and the command line is exactly the tokens from `k` on.
pub proof fn lemma_command_after_plain_prefix(args: Seq<Seq<char>>, k: int)
    requires
        0 <= k < args.len(),
        is_plain(args[k]),
        forall|j: int| 0 <= j < k ==> is_ignore_flag(#[trigger] args[j]) || is_valid_assignment(args[j]),
    ensures
        classify(args) is Ok,
        (classify(args)->Ok_0).1 == args.skip(k),
    decreases k,
{
    if k == 0 {
        assert(args.skip(0) =~= args);
    } else {
        let tail = args.drop_first();
        assert forall|j: int| 0 <= j < k - 1 implies is_ignore_flag(#[trigger] tail[j])
            || is_valid_assignment(tail[j]) by {
            assert(tail[j] == args[j + 1]);
        }
        assert(tail[k - 1] == args[k]);
        lemma_command_after_plain_prefix(tail, k - 1);
        assert(tail.skip(k - 1) =~= args.skip(k));
        assert(is_ignore_flag(args[0]) || is_valid_assignment(args[0]));
    }
}

/// A successful classification yields a non-empty command line whose first
/// token is plain, and which is a suffix of the argument list.
pub proof fn lemma_command_starts_plain(args: Seq<Seq<char>>)
    requires
        classify(args) is Ok,
    ensures
        (classify(args)->Ok_0).1.len() > 0,
        is_plain((classify(args)->Ok_0).1[0]),
        exists|k: int| 0 <= k < args.len() && (classify(args)->Ok_0).1 == args.skip(k),
    decreases args.len(),
{
    let t = args[0];
    if is_ignore_flag(t) || (!is_unset_flag(t) && t.contains('=')) {
        let tail = args.drop_first();
        lemma_command_starts_plain(tail);
        let k = choose|k: int| 0 <= k < tail.len() && (classify(tail)->Ok_0).1 == tail.skip(k);
        assert(tail.skip(k) =~= args.skip(k + 1));
    } else if is_unset_flag(t) {
        let tail = args.skip(2);
        lemma_command_starts_plain(tail);
        let k = choose|k: int| 0 <= k < tail.len() && (classify(tail)->Ok_0).1 == tail.skip(k);
        assert(tail.skip(k) =~= args.skip(k + 2));
    } else {
        assert(args.skip(0) =~= args);
    }
}

/// Tokens appended after a classified list are never read as options or
/// assignments: the edits stay the same and the tokens extend the command line
/// verbatim.
pub proof fn lemma_extension_joins_command(args: Seq<Seq<char>>, rest: Seq<Seq<char>>)
    requires
        classify(args) is Ok,
    ensures
        classify(args + rest) is Ok,
        (classify(args + rest)->Ok_0).0 == (classify(args)->Ok_0).0,
        (classify(args + rest)->Ok_0).1 == (classify(args)->Ok_0).1 + rest,
    decreases args.len(),
{
    let all = args + rest;
    let t = args[0];
    assert(all[0] == t);
    if is_ignore_flag(t) || (!is_unset_flag(t) && t.contains('=')) {
        assert(all.drop_first() =~= args.drop_first() + rest);
        lemma_extension_joins_command(args.drop_first(), rest);
        if !is_ignore_flag(t) {
            assert(first_equals(t) != 0);
        }
    } else if is_unset_flag(t) {
        assert(args.len() >= 2);
        assert(all[1] == args[1]);
        assert(all.skip(2) =~= args.skip(2) + rest);
        lemma_extension_joins_command(args.skip(2), rest);
    }
}

proof fn lemma_unset_flag_is_no_ignore_flag(t: Seq<char>)
    ensures
        is_unset_flag(t) ==> !is_ignore_flag(t),
{
    reveal_strlit("-i");
    reveal_strlit("-u");
    reveal_strlit("--ignore-environment");
    reveal_strlit("--unset");
    assert("-u"@[1] != "-i"@[1]);
    assert("-u"@.len() != "--ignore-environment"@.len());
    assert("--unset"@.len() != "-i"@.len());
    assert("--unset"@.len() != "--ignore-environment"@.len());
}

/// An assignment and an unset request before the command line may be given in
/// either order: the outcome is the same.
pub proof fn lemma_assignment_unset_commute(
    a: Seq<char>,
    u: Seq<char>,
    name: Seq<char>,
    rest: Seq<Seq<char>>,
)
    requires
        is_valid_assignment(a),
        is_unset_flag(u),
    ensures
        classify(seq![a, u, name] + rest) == classify(seq![u, name, a] + rest),
{
    lemma_unset_flag_is_no_ignore_flag(u);
    let x = seq![a, u, name] + rest;
    let y = seq![u, name, a] + rest;
    let set = set_edit(assigned_name(a), assigned_value(a));
    let unset = unset_edit(name);
    assert(x[0] == a && x[1] == u && x[2] == name);
    assert(y[0] == u && y[1] == name && y[2] == a);
    let x1 = x.drop_first();
    assert(x1[0] == u && x1[1] == name);
    assert(x1.skip(2) =~= rest);
    let y2 = y.skip(2);
    assert(y2[0] == a);
    assert(y2.drop_first() =~= rest);
    assert(classify(x1) == prefixed(unset, classify(rest)));
    assert(classify(x) == prefixed(set, classify(x1)));
    assert(classify(y2) == prefixed(set, classify(rest)));
    assert(classify(y) == prefixed(unset, classify(y2)));
    lemma_prefixed_prefixed(set, unset, classify(rest));
    lemma_prefixed_prefixed(unset, set, classify(rest));
    assert(combine(set, unset).unset_vars =~= combine(unset, set).unset_vars);
    assert(combine(set, unset).set_vars =~= combine(unset, set).set_vars);
}

/// `-i` or `--ignore-environment` may stand before or after an assignment:
/// the outcome is the same.
pub proof fn lemma_ignore_flag_assignment_commute(f: Seq<char>, a: Seq<char>, rest: Seq<Seq<char>>)
    requires
        is_ignore_flag(f),
        is_valid_assignment(a),
    ensures
        classify(seq![f, a] + rest) == classify(seq![a, f] + rest),
{
    let x = seq![f, a] + rest;
    let y = seq![a, f] + rest;
    let set = set_edit(assigned_name(a), assigned_value(a));
    assert(x[0] == f && x[1] == a);
    assert(y[0] == a && y[1] == f);
    let x1 = x.drop_first();
    let y1 = y.drop_first();
    assert(x1[0] == a && y1[0] == f);
    assert(x1.drop_first() =~= rest);
    assert(y1.drop_first() =~= rest);
    assert(classify(x1) == prefixed(set, classify(rest)));
    assert(classify(y1) == prefixed(clear_edit(), classify(rest)));
    assert(classify(x) == prefixed(clear_edit(), classify(x1)));
    assert(classify(y) == prefixed(set, classify(y1)));
    lemma_prefixed_prefixed(clear_edit(), set, classify(rest));
    lemma_prefixed_prefixed(set, clear_edit(), classify(rest));
    assert(combine(set, clear_edit()).unset_vars =~= combine(clear_edit(), set).unset_vars);
    assert(combine(set, clear_edit()).set_vars =~= combine(clear_edit(), set).set_vars);
}

/// `-i` or `--ignore-environment` may stand before or after an unset request:
/// the outcome is the same.
pub proof fn lemma_ignore_flag_unset_commute(
    f: Seq<char>,
    u: Seq<char>,
    name: Seq<char>,
    rest: Seq<Seq<char>>,
)
    requires
        is_ignore_flag(f),
        is_unset_flag(u),
    ensures
        classify(seq![f, u, name] + rest) == classify(seq![u, name, f] + rest),
{
    lemma_unset_flag_is_no_ignore_flag(u);
    let x = seq![f, u, name] + rest;
    let y = seq![u, name, f] + rest;
    let unset = unset_edit(name);
    assert(x[0] == f && x[1] == u && x[2] == name);
    assert(y[0] == u && y[1] == name && y[2] == f);
    let x1 = x.drop_first();
    assert(x1[0] == u && x1[1] == name);
    assert(x1.skip(2) =~= rest);
    let y2 = y.skip(2);
    assert(y2[0] == f);
    assert(y2.drop_first() =~= rest);
    assert(classify(x1) == prefixed(unset, classify(rest)));
    assert(classify(y2) == prefixed(clear_edit(), classify(rest)));
    lemma_prefixed_prefixed(clear_edit(), unset, classify(rest));
    lemma_prefixed_prefixed(unset, clear_edit(), classify(rest));
    assert(combine(unset, clear_edit()).unset_vars =~= combine(clear_edit(), unset).unset_vars);
    assert(combine(unset, clear_edit()).set_vars =~= combine(clear_edit(), unset).set_vars);
}

/// Classification depends on the argument list alone: equal lists give equal
/// outcomes.
pub proof fn lemma_classify_deterministic(a: Seq<Seq<char>>, b: Seq<Seq<char>>)
    requires
        a == b,
    ensures
        classify(a) == classify(b),
{
}

} // verus!
