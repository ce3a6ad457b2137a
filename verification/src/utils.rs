//! Helpers that are no detectors themselves: limits set by attributes,
//! chains of method calls, and the item around an expression.

use vstd::prelude::*;
use crate::node::{Attribute, ExprKind, Lit, MetaItemKind, NodeKind};
use crate::query::{expr_kind, expr_kind_of};
use crate::span::Span;
use crate::text::{chars_of, text_eq};
use crate::tree::{children_of, parent_of, Slot, Tree};

verus! {

/// The digit that the character stands for.
pub open spec fn digit_of(c: char) -> Option<int> {
    if '0' <= c <= '9' {
        Some(c as int - '0' as int)
    } else {
        None
    }
}

/// The number that the first `k` characters of `s` denote in decimal, if
/// all of them are digits.
pub open spec fn digits_value(s: Seq<char>, k: int) -> Option<int>
    decreases k,
{
    if k <= 0 {
        Some(0)
    } else {
        match (digits_value(s, k - 1), digit_of(s[k - 1])) {
            (Some(v), Some(d)) => Some(v * 10 + d),
            _ => None,
        }
    }
}

/// The number that the text denotes: decimal digits, at least one, with
/// an optional `+` in front, and a value that fits 64 bits.
pub open spec fn parse_u64_spec(s: Seq<char>) -> Option<u64> {
    let body = if s.len() > 0 && s[0] == '+' {
        s.skip(1)
    } else {
        s
    };
    if body.len() == 0 {
        None
    } else {
        match digits_value(body, body.len() as int) {
            Some(v) => if v <= u64::MAX {
                Some(v as u64)
            } else {
                None
            },
            None => None,
        }
    }
}

proof fn lemma_digits_grow(s: Seq<char>, k: int, n: int)
    requires
        0 <= k <= n,
        digits_value(s, n).is_some(),
    ensures
        digits_value(s, k).is_some(),
        0 <= digits_value(s, k).unwrap() <= digits_value(s, n).unwrap(),
    decreases n - k,
{
    if k < n {
        lemma_digits_grow(s, k + 1, n);
        lemma_digits_nonneg(s, k);
    } else {
        lemma_digits_nonneg(s, k);
    }
}

proof fn lemma_digits_nonneg(s: Seq<char>, k: int)
    ensures
        digits_value(s, k).is_some() ==> digits_value(s, k).unwrap() >= 0,
    decreases k,
{
    if k > 0 {
        lemma_digits_nonneg(s, k - 1);
    }
}

/// Reads a number of 64 bits from its decimal text.
pub fn parse_u64(text: &str) -> (r: Option<u64>)
    ensures
        r == parse_u64_spec(text@),
{
    let chars = chars_of(text);
    let n = chars.len();
    let start: usize = if n > 0 && chars[0] == '+' {
        1
    } else {
        0
    };
    if start == n {
        return None;
    }
    let ghost body = if text@.len() > 0 && text@[0] == '+' {
        text@.skip(1)
    } else {
        text@
    };
    assert(body =~= chars@.skip(start as int));
    let mut value: u64 = 0;
    let mut k: usize = start;
    while k < n
        invariant
            start <= k <= n == chars.len(),
            start < n,
            chars@ == text@,
            body == (if text@.len() > 0 && text@[0] == '+' {
                text@.skip(1)
            } else {
                text@
            }),
            body == chars@.skip(start as int),
            digits_value(body, k - start) == Some(value as int),
        decreases n - k,
    {
        let c = chars[k];
        assert(body[k - start] == c);
        if c < '0' || c > '9' {
            proof {
                if digits_value(body, body.len() as int).is_some() {
                    lemma_digits_grow(body, k - start + 1, body.len() as int);
                }
            }
            return None;
        }
        let d = (c as u32 - '0' as u32) as u64;
        let next = match value.checked_mul(10) {
            Some(v) => v.checked_add(d),
            None => None,
        };
        match next {
            Some(v) => {
                value = v;
            },
            None => {
                proof {
                    if digits_value(body, body.len() as int).is_some() {
                        lemma_digits_grow(body, k - start + 1, body.len() as int);
                    }
                }
                return None;
            },
        }
        k += 1;
    }
    Some(value)
}

/// The limit that the attribute sets under the key `name`: the attribute
/// is `#[name = "text"]` and no doc comment. The result is the text.
pub open spec fn limit_text(attr: Attribute, name: Seq<char>) -> Option<Seq<char>> {
    if attr.is_sugared_doc {
        None
    } else {
        match attr.value.kind {
            MetaItemKind::NameValue(key, Lit::Str(text)) => if key@ == name {
                Some(text@)
            } else {
                None
            },
            _ => None,
        }
    }
}

/// The limits that the attributes `attrs[k..]` set under the key `name`,
/// in order; a text that is no number sets none.
pub open spec fn limits_of(attrs: Seq<Attribute>, name: Seq<char>, k: int) -> Seq<u64>
    decreases attrs.len() - k,
{
    if k < 0 || k >= attrs.len() {
        Seq::empty()
    } else {
        (match limit_text(attrs[k], name) {
            Some(text) => match parse_u64_spec(text) {
                Some(v) => seq![v],
                None => Seq::empty(),
            },
            None => Seq::empty(),
        }) + limits_of(attrs, name, k + 1)
    }
}

/// The spans of the values among `attrs[k..]` under the key `name` that
/// are no numbers.
pub open spec fn bad_limits_of(attrs: Seq<Attribute>, name: Seq<char>, k: int) -> Seq<Span>
    decreases attrs.len() - k,
{
    if k < 0 || k >= attrs.len() {
        Seq::empty()
    } else {
        (match limit_text(attrs[k], name) {
            Some(text) => match parse_u64_spec(text) {
                Some(_) => Seq::empty(),
                None => seq![attrs[k].value.span],
            },
            None => Seq::empty(),
        }) + bad_limits_of(attrs, name, k + 1)
    }
}

/// Reads the limits that the attributes set under the key `name`. The
/// second part of the result holds, for each value that is not a number,
/// the span of the attribute's value.
pub fn parse_attrs(attrs: &Vec<Attribute>, name: &str) -> (r: (Vec<u64>, Vec<Span>))
    ensures
        r.0@ == limits_of(attrs@, name@, 0),
        r.1@ == bad_limits_of(attrs@, name@, 0),
{
    let mut values: Vec<u64> = Vec::new();
    let mut errors: Vec<Span> = Vec::new();
    let n = attrs.len();
    let mut k: usize = 0;
    assert(values@ + limits_of(attrs@, name@, 0) =~= limits_of(attrs@, name@, 0));
    assert(errors@ + bad_limits_of(attrs@, name@, 0) =~= bad_limits_of(attrs@, name@, 0));
    while k < n
        invariant
            k <= n == attrs.len(),
            values@ + limits_of(attrs@, name@, k as int) == limits_of(attrs@, name@, 0),
            errors@ + bad_limits_of(attrs@, name@, k as int) == bad_limits_of(attrs@, name@, 0),
        decreases n - k,
    {
        let attr = &attrs[k];
        let ghost good = values@;
        let ghost bad = errors@;
        let ghost rest_good = limits_of(attrs@, name@, k + 1);
        let ghost rest_bad = bad_limits_of(attrs@, name@, k + 1);
        let mut text: Option<&String> = None;
        if !attr.is_sugared_doc {
            if let MetaItemKind::NameValue(key, Lit::Str(s)) = &attr.value.kind {
                if text_eq(key.as_str(), name) {
                    text = Some(s);
                }
            }
        }
        match text {
            Some(s) => match parse_u64(s.as_str()) {
                Some(v) => {
                    values.push(v);
                    assert(values@ + rest_good =~= good + (seq![v] + rest_good));
                    assert(bad + (Seq::<Span>::empty() + rest_bad) =~= bad + rest_bad);
                },
                None => {
                    errors.push(attr.value.span);
                    assert(errors@ + rest_bad =~= bad + (seq![attr.value.span] + rest_bad));
                    assert(good + (Seq::<u64>::empty() + rest_good) =~= good + rest_good);
                },
            },
            None => {
                assert(good + (Seq::<u64>::empty() + rest_good) =~= good + rest_good);
                assert(bad + (Seq::<Span>::empty() + rest_bad) =~= bad + rest_bad);
            },
        }
        k += 1;
    }
    assert(values@ + Seq::<u64>::empty() =~= values@);
    assert(errors@ + Seq::<Span>::empty() =~= errors@);
    (values, errors)
}

/// A limit that attributes can set for the code they stand on: the limit
/// in force is the one set last.
#[derive(Debug, PartialEq, Eq)]
pub struct LimitStack {
    base: u64,
    stack: Vec<u64>,
}

/// Whether `tail` is what stands at the end of `stack`, above at least
/// one other limit.
pub open spec fn ends_with(stack: Seq<u64>, tail: Seq<u64>) -> bool {
    tail.len() < stack.len() && stack.subrange(stack.len() - tail.len(), stack.len() as int) == tail
}

impl LimitStack {
    /// The limits, the one in force last. There is always at least one.
    pub closed spec fn limits(&self) -> Seq<u64> {
        seq![self.base] + self.stack@
    }

    /// The stack for code on which no attribute sets a limit yet.
    pub fn new(limit: u64) -> (r: LimitStack)
        ensures
            r.limits() == seq![limit],
    {
        let r = LimitStack { base: limit, stack: Vec::new() };
        assert(r.limits() =~= seq![limit]);
        r
    }

    /// The limit in force.
    pub fn limit(&self) -> (l: u64)
        ensures
            self.limits().len() >= 1,
            l == self.limits().last(),
    {
        let n = self.stack.len();
        if n == 0 {
            self.base
        } else {
            self.stack[n - 1]
        }
    }

    /// Puts the limits that `attrs` set under `name` on the stack, and
    /// returns the spans of the values that are no numbers.
    pub fn push_attrs(&mut self, attrs: &Vec<Attribute>, name: &str) -> (errors: Vec<Span>)
        ensures
            final(self).limits() == old(self).limits() + limits_of(attrs@, name@, 0),
            errors@ == bad_limits_of(attrs@, name@, 0),
    {
        let (values, errors) = parse_attrs(attrs, name);
        let mut values = values;
        self.stack.append(&mut values);
        assert(self.limits() =~= old(self).limits() + limits_of(attrs@, name@, 0));
        errors
    }

    /// Takes the limits that `attrs` set under `name` off the stack
    /// again. The stack stays as it is, and the result is `false`, if
    /// those limits are not what stands at its end.
    pub fn pop_attrs(&mut self, attrs: &Vec<Attribute>, name: &str) -> (popped: bool)
        ensures
            popped == ends_with(old(self).limits(), limits_of(attrs@, name@, 0)),
            popped ==> final(self).limits() + limits_of(attrs@, name@, 0) == old(self).limits(),
            !popped ==> final(self).limits() == old(self).limits(),
    {
        let (values, _) = parse_attrs(attrs, name);
        let n = self.stack.len();
        let m = values.len();
        let ghost all = self.limits();
        assert(all.len() == n + 1);
        if m > n {
            return false;
        }
        let mut k: usize = 0;
        while k < m
            invariant
                k <= m == values.len(),
                m <= n == self.stack.len(),
                *self == *old(self),
                all == self.limits(),
                all.len() == n + 1,
                values@ == limits_of(attrs@, name@, 0),
                forall|i: int| 0 <= i < k ==> self.stack[n - m + i] == values[i],
            decreases m - k,
        {
            if self.stack[n - m + k] != values[k] {
                assert(all.subrange(all.len() - m, all.len() as int)[k as int] == self.stack[n - m + k]);
                return false;
            }
            k += 1;
        }
        assert(all.subrange(all.len() - m, all.len() as int) =~= values@);
        self.stack.truncate(n - m);
        assert(self.limits() + values@ =~= all);
        true
    }
}

/// The receiver of the method call at `at`, if the node is a call of the
/// method `name`.
pub open spec fn chain_link(s: Seq<Slot>, at: int, name: Seq<char>) -> Option<int> {
    match expr_kind_of(s, at) {
        Some(ExprKind::MethodCall { name: method, .. }) => if method@ == name && children_of(s, at).len() >= 1 {
            Some(children_of(s, at)[0])
        } else {
            None
        },
        _ => None,
    }
}

/// The method calls of a chain that ends at `at` and calls the first `k`
/// of `methods` in order, the call of `methods[0]` first.
pub open spec fn method_chain(s: Seq<Slot>, at: int, methods: Seq<Seq<char>>, k: int) -> Option<Seq<int>>
    decreases k,
{
    if k <= 0 {
        Some(Seq::empty())
    } else {
        match chain_link(s, at, methods[k - 1]) {
            Some(recv) => match method_chain(s, recv, methods, k - 1) {
                Some(calls) => Some(calls.push(at)),
                None => None,
            },
            None => None,
        }
    }
}

/// Match an expression against a chain of methods, and return the
/// matched calls. For example, if `expr` is the `.baz()` in
/// `foo.bar().baz()`, the methods `["bar", "baz"]` give the calls of
/// `.bar()` and of `.baz()`; the arguments of each are its children.
pub fn method_chain_args(tree: &Tree, expr: usize, methods: &[&str]) -> (r: Option<Vec<usize>>)
    requires
        expr < tree@.len(),
    ensures
        match r {
            Some(calls) => method_chain(
                tree@,
                expr as int,
                methods@.map_values(|m: &str| m@),
                methods@.len() as int,
            ) == Some(calls@.map_values(|c: usize| c as int)),
            None => method_chain(
                tree@,
                expr as int,
                methods@.map_values(|m: &str| m@),
                methods@.len() as int,
            ).is_none(),
        },
        r.is_some() ==> forall|i: int| 0 <= i < r.unwrap().len() ==> #[trigger] r.unwrap()[i] < tree@.len(),
{
    let ghost names = methods@.map_values(|m: &str| m@);
    let n = methods.len();
    let mut current = expr;
    let mut matched: Vec<usize> = Vec::new();
    let mut k = n;
    while k > 0
        invariant
            k <= n == methods.len(),
            current < tree@.len(),
            names == methods@.map_values(|m: &str| m@),
            matched@.len() == n - k,
            forall|i: int| 0 <= i < matched.len() ==> #[trigger] matched[i] < tree@.len(),
            method_chain(tree@, expr as int, names, n as int) == match method_chain(
                tree@,
                current as int,
                names,
                k as int,
            ) {
                Some(calls) => Some(calls + matched@.map_values(|c: usize| c as int).reverse()),
                None => None,
            },
        decreases k,
    {
        // method chains are stored last -> first
        let ghost before = matched@.map_values(|c: usize| c as int);
        let name = methods[k - 1];
        assert(names[k - 1] == name@);
        let recv = match expr_kind(tree, current) {
            Some(ExprKind::MethodCall { name: method, .. }) => {
                if !text_eq(method.as_str(), name) {
                    return None;
                }
                let args = tree.children(current);
                if args.len() == 0 {
                    return None;
                }
                args[0]
            },
            _ => {
                return None;
            },
        };
        matched.push(current);  // build up `matched` backwards
        proof {
            let now = matched@.map_values(|c: usize| c as int);
            assert(now =~= before.push(current as int));
            assert(now.reverse() =~= seq![current as int] + before.reverse());
            match method_chain(tree@, recv as int, names, k - 1) {
                Some(calls) => {
                    assert(calls.push(current as int) + before.reverse() =~= calls + now.reverse());
                },
                None => {},
            }
        }
        current = recv;  // go to parent expression
        k -= 1;
    }
    // reverse `matched`, so that it is in the same order as `methods`
    let mut ordered: Vec<usize> = Vec::new();
    let m = matched.len();
    let mut i = m;
    while i > 0
        invariant
            i <= m == matched.len(),
            ordered@ == matched@.subrange(i as int, m as int).reverse(),
            forall|j: int| 0 <= j < matched.len() ==> #[trigger] matched[j] < tree@.len(),
            forall|j: int| 0 <= j < ordered.len() ==> #[trigger] ordered[j] < tree@.len(),
        decreases i,
    {
        i -= 1;
        ordered.push(matched[i]);
        assert(ordered@ =~= matched@.subrange(i as int, m as int).reverse());
    }
    proof {
        assert(matched@.subrange(0, m as int) =~= matched@);
        assert(ordered@.map_values(|c: usize| c as int) =~= matched@.map_values(|c: usize| c as int).reverse());
        assert(Seq::<int>::empty() + ordered@.map_values(|c: usize| c as int) =~= ordered@.map_values(
            |c: usize| c as int,
        ));
    }
    Some(ordered)
}

/// The name of the item that the node at `at` stands in, searching at
/// most `fuel` ancestors.
pub open spec fn item_name_of(s: Seq<Slot>, at: int, fuel: nat) -> Option<Seq<char>>
    decreases fuel,
{
    if fuel == 0 {
        None
    } else {
        match parent_of(s, at) {
            Some(p) => match s[p].node.kind {
                NodeKind::Item { name, .. } => Some(name@),
                _ => item_name_of(s, p, (fuel - 1) as nat),
            },
            None => None,
        }
    }
}

/// Get the name of the item the expression is in, if available.
pub fn get_item_name(tree: &Tree, expr: usize) -> (r: Option<&String>)
    requires
        expr < tree@.len(),
    ensures
        match r {
            Some(name) => item_name_of(tree@, expr as int, tree@.len()) == Some(name@),
            None => item_name_of(tree@, expr as int, tree@.len()).is_none(),
        },
{
    let mut cur = expr;
    let mut fuel = tree.len();
    while fuel > 0
        invariant
            cur < tree@.len(),
            item_name_of(tree@, cur as int, fuel as nat) == item_name_of(tree@, expr as int, tree@.len()),
        decreases fuel,
    {
        match tree.parent(cur) {
            Some(p) => {
                if let NodeKind::Item { name, .. } = &tree.node(p).kind {
                    return Some(name);
                }
                cur = p;
                fuel -= 1;
            },
            None => {
                return None;
            },
        }
    }
    None
}

} // verus!
