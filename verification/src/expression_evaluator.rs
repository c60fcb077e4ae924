//! The condition language: rewriting bracket lookups into flat variable
//! names, flattening nested configurations into a variable namespace,
//! and evaluating conditions against it.

use vstd::prelude::*;

use crate::evalexpr_bridge::{
    builtins_disabled, context_bindings, context_disable_builtins, context_has, context_set,
    eval_boolean_in_context, eval_outcome, new_context, MAX_EXPRESSION_LEN,
};
use crate::models::{ApiProjectConfigResponseResult, ConfigValue};

verus! {

/// The view of a flattened binding list: names as character sequences,
/// values as they stand.
pub open spec fn pairs_view(s: Seq<(String, ConfigValue)>) -> Seq<(Seq<char>, ConfigValue)> {
    s.map_values(|p: (String, ConfigValue)| (p.0@, p.1))
}

/// The flat bindings contributed by one configuration entry: a scalar
/// becomes a single binding under its own name, a nested object
/// contributes its own flattening with the entry's name and a `_`
/// prefixed, and any other stored shape contributes nothing.
pub open spec fn flat_pairs_of_entry(key: Seq<char>, v: ConfigValue) -> Seq<
    (Seq<char>, ConfigValue),
>
    decreases v,
{
    if v.is_scalar() {
        seq![(key, v)]
    } else {
        match v {
            ConfigValue::Object(sub) => flat_pairs_of_entries(sub@).map_values(
                |p: (Seq<char>, ConfigValue)| (key + seq!['_'] + p.0, p.1),
            ),
            _ => Seq::empty(),
        }
    }
}

/// The flat bindings of a sequence of configuration entries, in
/// depth-first order; a later binding under a name already used wins
/// when the list is read as a namespace.
pub open spec fn flat_pairs_of_entries(entries: Seq<(String, ConfigValue)>) -> Seq<
    (Seq<char>, ConfigValue),
>
    decreases entries,
{
    if entries.len() == 0 {
        Seq::empty()
    } else {
        flat_pairs_of_entries(entries.drop_last()) + flat_pairs_of_entry(
            entries.last().0@,
            entries.last().1,
        )
    }
}

/// Copies a scalar configuration value.
fn clone_scalar(v: &ConfigValue) -> (r: ConfigValue)
    requires
        v.is_scalar(),
    ensures
        r == *v,
{
    match v {
        ConfigValue::Text(s) => ConfigValue::Text(s.clone()),
        ConfigValue::Integer(i) => ConfigValue::Integer(*i),
        ConfigValue::Decimal(bits) => ConfigValue::Decimal(*bits),
        ConfigValue::Truth(b) => ConfigValue::Truth(*b),
        _ => unreached(),
    }
}

/// Flattens a nested configuration object into variable bindings by a
/// depth-first walk: each scalar leaf is emitted under its path
/// segments joined with `_`, and non-scalar leaves are dropped.
pub fn get_key_vals(obj: &Vec<(String, ConfigValue)>) -> (result: Vec<(String, ConfigValue)>)
    ensures
        pairs_view(result@) == flat_pairs_of_entries(obj@),
        forall|k: int| 0 <= k < result@.len() ==> (#[trigger] result@[k]).1.is_scalar(),
    decreases obj@,
{
    let mut result: Vec<(String, ConfigValue)> = Vec::new();
    let mut i: usize = 0;
    proof {
        assert(obj@.take(0) =~= Seq::<(String, ConfigValue)>::empty());
        assert(pairs_view(result@) =~= flat_pairs_of_entries(obj@.take(0)));
    }
    while i < obj.len()
        invariant
            i <= obj@.len(),
            pairs_view(result@) == flat_pairs_of_entries(obj@.take(i as int)),
            forall|k: int| 0 <= k < result@.len() ==> (#[trigger] result@[k]).1.is_scalar(),
        decreases obj@.len() - i,
    {
        let pair = &obj[i];
        proof {
            assert(obj@.take(i as int + 1).drop_last() =~= obj@.take(i as int));
            assert(obj@.take(i as int + 1).last() == obj@[i as int]);
        }
        match &pair.1 {
            ConfigValue::Object(sub) => {
                proof {
                    assert(decreases_to!(obj@ => obj@[i as int]));
                    assert(decreases_to!(obj@[i as int] => obj@[i as int].1));
                    assert(obj@[i as int].1 == ConfigValue::Object(*sub));
                    assert(decreases_to!(obj@[i as int].1 => *sub));
                    assert(decreases_to!(*sub => sub@));
                }
                let sub_key_vals = get_key_vals(sub);
                let ghost prefixed = flat_pairs_of_entry(obj@[i as int].0@, obj@[i as int].1);
                let mut j: usize = 0;
                proof {
                    assert(prefixed =~= pairs_view(sub_key_vals@).map_values(
                        |p: (Seq<char>, ConfigValue)| (obj@[i as int].0@ + seq!['_'] + p.0, p.1),
                    ));
                    assert(pairs_view(result@) + prefixed.take(0) =~= pairs_view(result@));
                }
                while j < sub_key_vals.len()
                    invariant
                        i < obj@.len(),
                        *pair == obj@[i as int],
                        prefixed == flat_pairs_of_entry(obj@[i as int].0@, obj@[i as int].1),
                        j <= sub_key_vals@.len(),
                        prefixed.len() == sub_key_vals@.len(),
                        forall|k: int|
                            0 <= k < sub_key_vals@.len() ==> (#[trigger] sub_key_vals@[k]).1.is_scalar(),
                        forall|k: int|
                            0 <= k < sub_key_vals@.len() ==> #[trigger] prefixed[k] == (
                                obj@[i as int].0@ + seq!['_'] + sub_key_vals@[k].0@,
                                sub_key_vals@[k].1,
                            ),
                        pairs_view(result@) == flat_pairs_of_entries(obj@.take(i as int))
                            + prefixed.take(j as int),
                        forall|k: int| 0 <= k < result@.len() ==> (#[trigger] result@[k]).1.is_scalar(),
                    decreases sub_key_vals@.len() - j,
                {
                    let sp = &sub_key_vals[j];
                    let name = pair.0.clone().concat("_").concat(sp.0.as_str());
                    proof {
                        reveal_strlit("_");
                        assert("_"@ =~= seq!['_']);
                        assert(name@ =~= obj@[i as int].0@ + seq!['_'] + sub_key_vals@[j as int].0@);
                    }
                    let val = clone_scalar(&sp.1);
                    let ghost before = result@;
                    result.push((name, val));
                    proof {
                        assert(result@ =~= before.push((name, val)));
                        assert(pairs_view(result@) =~= pairs_view(before).push((name@, val)));
                        assert((name@, val) == prefixed[j as int]);
                        assert(prefixed.take(j as int + 1) =~= prefixed.take(j as int).push(
                            prefixed[j as int],
                        ));
                        assert(pairs_view(before).push(prefixed[j as int])
                            =~= flat_pairs_of_entries(obj@.take(i as int)) + prefixed.take(
                            j as int + 1,
                        ));
                        assert(pairs_view(result@) =~= flat_pairs_of_entries(obj@.take(i as int))
                            + prefixed.take(j as int + 1));
                    }
                    j += 1;
                }
                proof {
                    assert(prefixed.take(sub_key_vals@.len() as int) =~= prefixed);
                    assert(pairs_view(result@) =~= flat_pairs_of_entries(obj@.take(i as int))
                        + prefixed);
                    assert(obj@.take(i as int + 1).drop_last() =~= obj@.take(i as int));
                    assert(obj@.take(i as int + 1).last() == obj@[i as int]);
                    assert(flat_pairs_of_entries(obj@.take(i as int + 1))
                        =~= flat_pairs_of_entries(obj@.take(i as int)) + flat_pairs_of_entry(
                        obj@[i as int].0@,
                        obj@[i as int].1,
                    ));
                    assert(pairs_view(result@) =~= flat_pairs_of_entries(obj@.take(i as int + 1)));
                }
            },
            ConfigValue::Other => {
                proof {
                    assert(flat_pairs_of_entry(obj@[i as int].0@, obj@[i as int].1)
                        =~= Seq::<(Seq<char>, ConfigValue)>::empty());
                    assert(pairs_view(result@) =~= flat_pairs_of_entries(obj@.take(i as int + 1)));
                }
            },
            _ => {
                let name = pair.0.clone();
                let val = clone_scalar(&pair.1);
                let ghost before = result@;
                result.push((name, val));
                proof {
                    assert(result@ =~= before.push((name, val)));
                    assert(pairs_view(result@) =~= pairs_view(before).push((name@, val)));
                    assert((name@, val) == (obj@[i as int].0@, obj@[i as int].1));
                    assert(flat_pairs_of_entry(obj@[i as int].0@, obj@[i as int].1) =~= seq![
                        (obj@[i as int].0@, obj@[i as int].1),
                    ]);
                    assert(flat_pairs_of_entries(obj@.take(i as int + 1))
                        =~= flat_pairs_of_entries(obj@.take(i as int)) + flat_pairs_of_entry(
                        obj@[i as int].0@,
                        obj@[i as int].1,
                    ));
                    assert(pairs_view(result@) =~= flat_pairs_of_entries(obj@.take(i as int + 1)));
                }
            },
        }
        i += 1;
    }
    proof {
        assert(obj@.take(obj@.len() as int) =~= obj@);
    }
    result
}

/// Reads a binding list as a namespace: bindings are applied from
/// first to last, so a later binding under the same name wins.
pub open spec fn map_of_pairs(pairs: Seq<(Seq<char>, ConfigValue)>) -> Map<Seq<char>, ConfigValue>
    decreases pairs.len(),
{
    if pairs.len() == 0 {
        Map::empty()
    } else {
        map_of_pairs(pairs.drop_last()).insert(pairs.last().0, pairs.last().1)
    }
}

/// Prepends the evaluation namespace prefix to every binding name.
pub open spec fn prefixed_pairs(s: Seq<(Seq<char>, ConfigValue)>) -> Seq<(Seq<char>, ConfigValue)> {
    s.map_values(|p: (Seq<char>, ConfigValue)| ("config_"@ + p.0, p.1))
}

/// The variable namespace a configuration's attributes induce: the
/// flat bindings of the attribute object under the `config_` prefix,
/// read as a namespace. Attributes that are not an object contribute
/// no bindings at all.
pub open spec fn config_context(attributes: ConfigValue) -> Map<Seq<char>, ConfigValue> {
    match attributes {
        ConfigValue::Object(entries) => map_of_pairs(
            prefixed_pairs(flat_pairs_of_entries(entries@)),
        ),
        _ => Map::empty(),
    }
}

/// Reading a namespace from the front: a leading binding only counts
/// where no later binding uses its name.
proof fn lemma_map_of_pairs_cons(p: (Seq<char>, ConfigValue), s: Seq<(Seq<char>, ConfigValue)>)
    ensures
        map_of_pairs(seq![p] + s) == if map_of_pairs(s).dom().contains(p.0) {
            map_of_pairs(s)
        } else {
            map_of_pairs(s).insert(p.0, p.1)
        },
    decreases s.len(),
{
    if s.len() == 0 {
        assert(seq![p] + s =~= seq![p]);
        assert(seq![p].drop_last() =~= Seq::<(Seq<char>, ConfigValue)>::empty());
        assert(map_of_pairs(Seq::<(Seq<char>, ConfigValue)>::empty())
            == Map::<Seq<char>, ConfigValue>::empty());
        assert(seq![p].last() == p);
        assert(map_of_pairs(seq![p]) =~= Map::empty().insert(p.0, p.1));
    } else {
        let t = seq![p] + s;
        assert(t.drop_last() =~= seq![p] + s.drop_last());
        assert(t.last() == s.last());
        lemma_map_of_pairs_cons(p, s.drop_last());
        let m = map_of_pairs(s.drop_last());
        if m.dom().contains(p.0) {
            assert(map_of_pairs(s).dom().contains(p.0));
        } else if s.last().0 == p.0 {
            assert(m.insert(p.0, p.1).insert(s.last().0, s.last().1) =~= m.insert(
                s.last().0,
                s.last().1,
            ));
            assert(map_of_pairs(s).dom().contains(p.0));
        } else {
            assert(m.insert(p.0, p.1).insert(s.last().0, s.last().1) =~= m.insert(
                s.last().0,
                s.last().1,
            ).insert(p.0, p.1));
            assert(!map_of_pairs(s).dom().contains(p.0));
        }
    }
}

/// Whether the condition admits a node under the given configuration
/// attributes: an empty condition always does; a condition longer
/// than [`MAX_EXPRESSION_LEN`] never does, without being parsed; any
/// other condition does exactly when its flat-variable form evaluates
/// to `true` in the configuration's namespace. So any evaluation
/// failure — and any condition the engine declines to parse — keeps
/// the node hidden.
pub open spec fn condition_holds(condition: Seq<char>, attributes: ConfigValue) -> bool {
    if condition.len() == 0 {
        true
    } else if condition.len() > MAX_EXPRESSION_LEN as int {
        false
    } else {
        eval_outcome(normalized_condition(condition), config_context(attributes)) == Some(true)
    }
}

/// Rewriting a condition never lengthens it: every step keeps or
/// drops the character in hand, and `[` is traded for a single `_`.
pub proof fn lemma_normalized_no_longer(s: Seq<char>, in_lookup_key: bool)
    ensures
        normalized_condition_from(s, in_lookup_key).len() <= s.len(),
    decreases s.len(),
{
    if s.len() > 0 {
        lemma_normalized_no_longer(s.skip(1), true);
        lemma_normalized_no_longer(s.skip(1), false);
    }
}

/// An empty condition admits its node under every configuration: no
/// parse is attempted and no binding is consulted.
pub proof fn lemma_empty_condition_always_holds(attributes: ConfigValue)
    ensures
        condition_holds(Seq::<char>::empty(), attributes),
{
}

/// Flattening a configuration whose single key holds an object with a
/// single integer entry yields exactly one variable: the two key names
/// joined by `_`, bound to that integer — whatever the names and the
/// value.
pub proof fn lemma_flatten_nested_key(
    entries: Seq<(String, ConfigValue)>,
    sub: Vec<(String, ConfigValue)>,
    v: i64,
)
    requires
        entries.len() == 1,
        entries[0].1 == ConfigValue::Object(sub),
        sub@.len() == 1,
        sub@[0].1 == ConfigValue::Integer(v),
    ensures
        map_of_pairs(flat_pairs_of_entries(entries)) == Map::<Seq<char>, ConfigValue>::empty()
            .insert(entries[0].0@ + seq!['_'] + sub@[0].0@, ConfigValue::Integer(v)),
{
    let inner = flat_pairs_of_entries(sub@);
    assert(sub@.drop_last() =~= Seq::<(String, ConfigValue)>::empty());
    assert(flat_pairs_of_entries(Seq::<(String, ConfigValue)>::empty())
        == Seq::<(Seq<char>, ConfigValue)>::empty());
    assert(sub@.last() == sub@[0]);
    assert(flat_pairs_of_entry(sub@[0].0@, sub@[0].1) =~= seq![
        (sub@[0].0@, ConfigValue::Integer(v)),
    ]);
    assert(inner =~= seq![(sub@[0].0@, ConfigValue::Integer(v))]);
    assert(entries.drop_last() =~= Seq::<(String, ConfigValue)>::empty());
    assert(entries.last() == entries[0]);
    let outer = flat_pairs_of_entry(entries[0].0@, entries[0].1);
    assert(outer =~= inner.map_values(
        |p: (Seq<char>, ConfigValue)| (entries[0].0@ + seq!['_'] + p.0, p.1),
    ));
    assert(outer =~= seq![(entries[0].0@ + seq!['_'] + sub@[0].0@, ConfigValue::Integer(v))]);
    assert(flat_pairs_of_entries(entries) =~= outer);
    assert(outer.drop_last() =~= Seq::<(Seq<char>, ConfigValue)>::empty());
    assert(map_of_pairs(Seq::<(Seq<char>, ConfigValue)>::empty())
        == Map::<Seq<char>, ConfigValue>::empty());
    assert(outer.last() == (entries[0].0@ + seq!['_'] + sub@[0].0@, ConfigValue::Integer(v)));
    assert(map_of_pairs(flat_pairs_of_entries(entries)) =~= Map::<Seq<char>, ConfigValue>::empty()
        .insert(entries[0].0@ + seq!['_'] + sub@[0].0@, ConfigValue::Integer(v)));
}

/// Resolves a condition against a configuration. The empty condition
/// is `true` without a parse attempt, and a condition longer than
/// [`MAX_EXPRESSION_LEN`] is `false` without one — the same fail-closed
/// policy that covers every evaluation failure. Otherwise the
/// condition is rewritten by [`de_json_condition`], the
/// configuration's attributes are flattened into `config_`-prefixed
/// variables, and the expression backend decides; function calls are
/// not part of the condition language, so they too fail closed.
pub fn evaluate(condition: &str, config: &ApiProjectConfigResponseResult) -> (r: bool)
    ensures
        r == condition_holds(condition@, config.attributes),
{
    let n = condition.unicode_len();
    if n == 0 {
        return true;
    }
    if n > MAX_EXPRESSION_LEN {
        return false;
    }
    let normalized_text = de_json_condition(condition);
    proof {
        lemma_normalized_no_longer(condition@, false);
    }
    let mut context = new_context();
    context_disable_builtins(&mut context);
    match &config.attributes {
        ConfigValue::Object(entries) => {
            let key_vals = get_key_vals(entries);
            let ghost pl = prefixed_pairs(flat_pairs_of_entries(entries@));
            proof {
                assert(pl.len() == key_vals@.len());
                assert forall|m: int| 0 <= m < key_vals@.len() implies #[trigger] pl[m] == (
                    "config_"@ + key_vals@[m].0@,
                    key_vals@[m].1,
                ) by {
                    assert(pairs_view(key_vals@)[m] == (key_vals@[m].0@, key_vals@[m].1));
                }
                assert(pl.skip(key_vals@.len() as int)
                    =~= Seq::<(Seq<char>, ConfigValue)>::empty());
            }
            let mut k: usize = key_vals.len();
            while k > 0
                invariant
                    k <= key_vals@.len(),
                    pl.len() == key_vals@.len(),
                    forall|m: int|
                        0 <= m < key_vals@.len() ==> (#[trigger] key_vals@[m]).1.is_scalar(),
                    forall|m: int|
                        0 <= m < key_vals@.len() ==> #[trigger] pl[m] == (
                            "config_"@ + key_vals@[m].0@,
                            key_vals@[m].1,
                        ),
                    context_bindings(context) == map_of_pairs(pl.skip(k as int)),
                    builtins_disabled(context),
                decreases k,
            {
                k -= 1;
                let p = &key_vals[k];
                let name = String::from_str("config_").concat(p.0.as_str());
                proof {
                    assert(name@ == pl[k as int].0);
                    assert(pl.skip(k as int) =~= seq![pl[k as int]] + pl.skip(k as int + 1));
                    lemma_map_of_pairs_cons(pl[k as int], pl.skip(k as int + 1));
                }
                if !context_has(&context, name.as_str()) {
                    context_set(&mut context, name.as_str(), &p.1);
                }
            }
            proof {
                assert(pl.skip(0) =~= pl);
                assert(context_bindings(context) == config_context(config.attributes));
            }
        },
        _ => {
            proof {
                assert(context_bindings(context) == config_context(config.attributes));
            }
        },
    }
    match eval_boolean_in_context(normalized_text.as_str(), &context) {
        Some(res) => res,
        None => false,
    }
}

/// One step of the bracket-lookup rewriting, starting in the given
/// scanning state. Outside a lookup key, `[` opens a key and becomes a
/// single `_`; inside one, `]` closes the key and disappears, quote
/// characters disappear, and every other character is kept. An
/// unmatched `]` outside a lookup key is an ordinary character.
pub open spec fn normalized_condition_from(s: Seq<char>, in_lookup_key: bool) -> Seq<char>
    decreases s.len(),
{
    if s.len() == 0 {
        Seq::empty()
    } else {
        let c = s[0];
        let rest = s.skip(1);
        if c == '[' && !in_lookup_key {
            seq!['_'] + normalized_condition_from(rest, true)
        } else if c == ']' && in_lookup_key {
            normalized_condition_from(rest, false)
        } else if in_lookup_key && (c == '"' || c == '\'') {
            normalized_condition_from(rest, true)
        } else {
            seq![c] + normalized_condition_from(rest, in_lookup_key)
        }
    }
}

/// The flat-variable form of a condition: every bracketed lookup
/// segment is folded into the preceding identifier with a `_`.
pub open spec fn normalized_condition(s: Seq<char>) -> Seq<char> {
    normalized_condition_from(s, false)
}

/// Rewrites object-lookup syntax into flat variable names, so that
/// `config["hello"]` becomes `config_hello`. Scans character by
/// character; see [`normalized_condition_from`] for the exact rules.
pub fn de_json_condition(condition: &str) -> (r: String)
    ensures
        r@ == normalized_condition(condition@),
{
    let n = condition.unicode_len();
    let mut alerted_string = String::new();
    let mut in_lookup_key = false;
    let mut i: usize = 0;
    proof {
        assert(condition@.skip(0) =~= condition@);
        assert(alerted_string@ + normalized_condition_from(condition@, false)
            =~= normalized_condition(condition@));
    }
    while i < n
        invariant
            n == condition@.len(),
            i <= n,
            normalized_condition(condition@) == alerted_string@
                + normalized_condition_from(condition@.skip(i as int), in_lookup_key),
        decreases n - i,
    {
        let c = condition.get_char(i);
        proof {
            let tail = condition@.skip(i as int);
            assert(tail[0] == condition@[i as int]);
            assert(tail.skip(1) =~= condition@.skip(i as int + 1));
        }
        if c == '[' && !in_lookup_key {
            in_lookup_key = true;
            alerted_string.append("_");
            proof {
                reveal_strlit("_");
                assert("_"@ =~= seq!['_']);
                assert(alerted_string@ + normalized_condition_from(
                    condition@.skip(i as int + 1), true)
                    =~= normalized_condition(condition@));
            }
        } else if c == ']' && in_lookup_key {
            in_lookup_key = false;
        } else if in_lookup_key && (c == '"' || c == '\'') {
            // quote characters inside a lookup key are dropped
        } else {
            let piece = condition.substring_char(i, i + 1);
            proof {
                assert(piece@ =~= seq![condition@[i as int]]);
            }
            alerted_string.append(piece);
            proof {
                assert(alerted_string@ + normalized_condition_from(
                    condition@.skip(i as int + 1), in_lookup_key)
                    =~= normalized_condition(condition@));
            }
        }
        i += 1;
    }
    proof {
        assert(condition@.skip(n as int) =~= Seq::<char>::empty());
        assert(alerted_string@ =~= normalized_condition(condition@));
    }
    alerted_string
}

} // verus!
