//! The counters collaborator: a fixed set of named counters, declared up
//! front, that the engine's callers may report activity through.

use crate::decimal::{int_chars, push_i64};
use vstd::prelude::*;
use vstd::string::{StrSliceExecFns, StringExecFns};

verus! {

/// The one thing that can go wrong with the counters: a name that was never
/// declared.
#[derive(Clone, Copy, Debug, PartialEq, Eq, Structural)]
pub enum MetricsError {
    KeyNotFound,
}

/// Whether some counter of `s` is named `k`.
pub open spec fn has_key(s: Seq<(Seq<char>, i64)>, k: Seq<char>) -> bool {
    exists|x: int| 0 <= x < s.len() && (#[trigger] s[x]).0 == k
}

/// The position of the counter of `s` named `k`.
pub open spec fn key_index(s: Seq<(Seq<char>, i64)>, k: Seq<char>) -> int {
    choose|x: int| 0 <= x < s.len() && (#[trigger] s[x]).0 == k
}

/// The counters declared by `s`: one per distinct name, in first-occurrence
/// order, each starting at zero.
pub open spec fn fresh_counters(s: Seq<Seq<char>>) -> Seq<(Seq<char>, i64)>
    decreases s.len(),
{
    if s.len() == 0 {
        Seq::empty()
    } else {
        let prev = fresh_counters(s.drop_last());
        if has_key(prev, s.last()) {
            prev
        } else {
            prev.push((s.last(), 0i64))
        }
    }
}

/// The declared counters all read zero and carry distinct names.
pub proof fn lemma_fresh_counters_distinct(s: Seq<Seq<char>>)
    ensures
        forall|x: int| 0 <= x < fresh_counters(s).len() ==> (#[trigger] fresh_counters(s)[x]).1
            == 0,
        forall|x: int, y: int|
            0 <= x < y < fresh_counters(s).len() ==> fresh_counters(s)[x].0 != fresh_counters(
                s,
            )[y].0,
    decreases s.len(),
{
    if s.len() > 0 {
        lemma_fresh_counters_distinct(s.drop_last());
        let prev = fresh_counters(s.drop_last());
        if !has_key(prev, s.last()) {
            assert forall|x: int, y: int|
                0 <= x < y < fresh_counters(s).len() implies fresh_counters(s)[x].0
                != fresh_counters(s)[y].0 by {
                if y == prev.len() {
                    assert(!(exists|t: int| 0 <= t < prev.len() && (#[trigger] prev[t]).0
                        == s.last()));
                    assert(prev[x].0 != s.last());
                }
            }
        }
    }
}

/// The rendering of the first `n` counters, one `name:value` line each.
pub open spec fn render_chars(s: Seq<(Seq<char>, i64)>, n: int) -> Seq<char>
    decreases n,
{
    if n <= 0 {
        Seq::empty()
    } else {
        render_chars(s, n - 1) + s[n - 1].0 + ":"@ + int_chars(s[n - 1].1 as int) + "\n"@
    }
}

/// A set of named counters fixed at construction. Incrementing wraps around
/// like the machine's add; an undeclared name is reported, never added.
#[derive(Debug)]
pub struct AmapMetrics {
    names: Vec<String>,
    counts: Vec<i64>,
}

impl View for AmapMetrics {
    type V = Seq<(Seq<char>, i64)>;

    closed spec fn view(&self) -> Seq<(Seq<char>, i64)> {
        Seq::new(self.names@.len() as nat, |x: int| (self.names@[x]@, self.counts@[x]))
    }
}

/// Character-for-character equality of two strings.
fn str_eq(a: &str, b: &str) -> (r: bool)
    ensures
        r == (a@ == b@),
{
    let an: usize = a.unicode_len();
    let bn: usize = b.unicode_len();
    if an != bn {
        return false;
    }
    let mut x: usize = 0;
    while x < an
        invariant
            a@.len() == an,
            b@.len() == bn,
            an == bn,
            x <= an,
            forall|t: int| 0 <= t < x ==> a@[t] == b@[t],
        decreases an - x,
    {
        if a.get_char(x) != b.get_char(x) {
            return false;
        }
        x = x + 1;
    }
    proof {
        assert(a@ =~= b@);
    }
    true
}

/// The position of `key` among `names`, if it is there.
fn find_key(names: &Vec<String>, key: &str) -> (r: Option<usize>)
    ensures
        match r {
            Some(x) => x < names@.len() && names@[x as int]@ == key@,
            None => forall|t: int| 0 <= t < names@.len() ==> names@[t]@ != key@,
        },
{
    let mut x: usize = 0;
    while x < names.len()
        invariant
            x <= names@.len(),
            forall|t: int| 0 <= t < x ==> names@[t]@ != key@,
        decreases names@.len() - x,
    {
        if str_eq(names[x].as_str(), key) {
            return Some(x);
        }
        x = x + 1;
    }
    None
}

impl AmapMetrics {
    #[verifier::type_invariant]
    spec fn keys_inv(self) -> bool {
        &&& self.names@.len() == self.counts@.len()
        &&& forall|x: int, y: int|
            0 <= x < y < self.names@.len() ==> self.names@[x]@ != self.names@[y]@
    }

    /// Declares one counter per distinct name, in first-occurrence order,
    /// each starting at zero.
    pub fn new(metric_names: &[&str]) -> (r: AmapMetrics)
        ensures
            r@ == fresh_counters(metric_names@.map_values(|nm: &str| nm@)),
    {
        let ghost all = metric_names@.map_values(|nm: &str| nm@);
        let mut names: Vec<String> = Vec::new();
        let mut counts: Vec<i64> = Vec::new();
        let n: usize = metric_names.len();
        let mut t: usize = 0;
        while t < n
            invariant
                n == metric_names@.len(),
                all == metric_names@.map_values(|nm: &str| nm@),
                t <= n,
                names@.len() == counts@.len(),
                Seq::new(names@.len() as nat, |x: int| (names@[x]@, counts@[x]))
                    == fresh_counters(all.take(t as int)),
            decreases n - t,
        {
            let ghost prev = Seq::new(names@.len() as nat, |x: int| (names@[x]@, counts@[x]));
            let nm: &str = metric_names[t];
            proof {
                assert(all.take(t + 1).drop_last() =~= all.take(t as int));
                assert(all.take(t + 1).last() == nm@);
            }
            match find_key(&names, nm) {
                Some(found) => {
                    proof {
                        assert((prev[found as int]).0 == nm@);
                        assert(has_key(prev, nm@));
                    }
                },
                None => {
                    proof {
                        assert forall|x: int| 0 <= x < prev.len() implies (#[trigger] prev[x]).0
                            != nm@ by {
                            assert(prev[x].0 == names@[x]@);
                        }
                        assert(!has_key(prev, nm@));
                    }
                    names.push(String::from_str(nm));
                    counts.push(0);
                    proof {
                        assert(Seq::new(names@.len() as nat, |x: int| (names@[x]@, counts@[x]))
                            =~= prev.push((nm@, 0i64)));
                    }
                },
            }
            t = t + 1;
        }
        proof {
            assert(all.take(n as int) =~= all);
            lemma_fresh_counters_distinct(all);
            let view = Seq::new(names@.len() as nat, |x: int| (names@[x]@, counts@[x]));
            assert forall|x: int, y: int|
                0 <= x < y < names@.len() implies names@[x]@ != names@[y]@ by {
                assert((view[x]).0 == names@[x]@);
                assert((view[y]).0 == names@[y]@);
            }
        }
        let r = AmapMetrics { names, counts };
        r
    }

    /// Steps the counter named `key` by one, wrapping at the ends of `i64`;
    /// an undeclared name is an error and changes nothing.
    pub fn inc(&mut self, key: &str) -> (r: Result<(), MetricsError>)
        ensures
            has_key(old(self)@, key@) ==> r == Ok::<(), MetricsError>(()) && final(self)@ == old(
                self,
            )@.update(
                key_index(old(self)@, key@),
                (key@, old(self)@[key_index(old(self)@, key@)].1.wrapping_add(1)),
            ),
            !has_key(old(self)@, key@) ==> r == Err::<(), MetricsError>(MetricsError::KeyNotFound)
                && final(self)@ == old(self)@,
    {
        proof {
            use_type_invariant(&*self);
        }
        match find_key(&self.names, key) {
            Some(x) => {
                let cur: i64 = self.counts[x];
                self.counts[x] = cur.wrapping_add(1);
                proof {
                    let k = key_index(old(self)@, key@);
                    assert((old(self)@[x as int]).0 == key@);
                    assert(has_key(old(self)@, key@));
                    assert(0 <= k < old(self)@.len() && (old(self)@[k]).0 == key@);
                    assert((old(self)@[k]).0 == old(self).names@[k]@);
                    assert(k == x);
                    assert(self@ =~= old(self)@.update(
                        k,
                        (key@, old(self)@[k].1.wrapping_add(1)),
                    ));
                }
                Ok(())
            },
            None => {
                proof {
                    assert(!has_key(old(self)@, key@));
                    assert(self@ =~= old(self)@);
                }
                Err(MetricsError::KeyNotFound)
            },
        }
    }

    /// Renders the counters, a `name:value` line per counter, in declaration
    /// order.
    pub fn render(&self) -> (r: String)
        ensures
            r@ == render_chars(self@, self@.len() as int),
    {
        proof {
            use_type_invariant(self);
        }
        let mut out = String::new();
        let n: usize = self.names.len();
        let mut x: usize = 0;
        while x < n
            invariant
                n == self.names@.len(),
                self.names@.len() == self.counts@.len(),
                x <= n,
                out@ == render_chars(self@, x as int),
            decreases n - x,
        {
            out.append(self.names[x].as_str());
            out.append(":");
            push_i64(&mut out, self.counts[x]);
            out.append("\n");
            proof {
                assert(out@ =~= render_chars(self@, x as int + 1));
            }
            x = x + 1;
        }
        out
    }
}

} // verus!
