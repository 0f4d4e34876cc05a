//! Small helpers shared by the builder: byte quantities and a plain
//! search-and-replace template engine.

use vstd::prelude::*;

verus! {

/// The character of a single decimal digit.
pub open spec fn digit_char(d: int) -> char {
    (48 + d) as char
}

/// The decimal digits of `n`, most significant first.
pub open spec fn u32_dec_str(n: u32) -> Seq<char>
    decreases n,
{
    if n < 10 {
        seq![digit_char(n as int)]
    } else {
        u32_dec_str(n / 10).push(digit_char((n % 10) as int))
    }
}

/// Renders the value's decimal digits, most significant first, with no
/// leading zeros.
pub(crate) fn u32_to_string(n: u32) -> (r: String)
    ensures
        r@ == u32_dec_str(n),
    decreases n,
{
    let d = n % 10;
    let ds: &str = match d {
        0 => "0",
        1 => "1",
        2 => "2",
        3 => "3",
        4 => "4",
        5 => "5",
        6 => "6",
        7 => "7",
        8 => "8",
        _ => "9",
    };
    proof {
        reveal_strlit("0");
        reveal_strlit("1");
        reveal_strlit("2");
        reveal_strlit("3");
        reveal_strlit("4");
        reveal_strlit("5");
        reveal_strlit("6");
        reveal_strlit("7");
        reveal_strlit("8");
        reveal_strlit("9");
        assert(ds@ =~= seq![digit_char(d as int)]);
    }
    if n < 10 {
        String::from_str(ds)
    } else {
        let mut s = u32_to_string(n / 10);
        s.append(ds);
        proof {
            assert(s@ =~= u32_dec_str(n));
        }
        s
    }
}

/// What `str::replace` returns: `s` with every non-overlapping occurrence
/// of `from`, scanned left to right, replaced by `to`.
pub uninterp spec fn replace_of(s: Seq<char>, from: Seq<char>, to: Seq<char>) -> Seq<char>;

/// Relies on `str::replace`: the result is the subject with every
/// occurrence of the pattern replaced, a pure function of the three
/// arguments.
#[verifier::external_body]
fn str_replace(s: &str, from: &str, to: &str) -> (r: String)
    ensures
        r@ == replace_of(s@, from@, to@),
{
    s.replace(from, to)
}

/// A number of bytes of memory.
#[derive(Clone, Copy)]
pub struct Bytes(pub u32);

impl Bytes {
    /// A quantity given directly in bytes.
    pub fn b(b: u32) -> (r: Bytes)
        ensures
            r.0 == b,
    {
        Bytes(b)
    }

    /// A quantity given in kibibytes.
    pub fn k(kb: u32) -> (r: Bytes)
        requires
            kb * 1024 <= u32::MAX,
        ensures
            r.0 == kb * 1024,
    {
        Bytes(kb * 1024)
    }

    /// The linker-script spelling of the quantity: a whole number of
    /// kibibytes is written with a `K` suffix, everything else in bytes.
    pub open spec fn spec_str(&self) -> Seq<char> {
        if self.0 % 1024 == 0 && self.0 != 0 {
            u32_dec_str(self.0 / 1024).push('K')
        } else {
            u32_dec_str(self.0)
        }
    }

    /// Renders the quantity as the linker script spells it.
    pub fn str(&self) -> (r: String)
        ensures
            r@ == self.spec_str(),
    {
        if self.0 % 1024 == 0 && self.0 != 0 {
            let mut s = u32_to_string(self.0 / 1024);
            s.append("K");
            proof {
                reveal_strlit("K");
                assert(s@ =~= self.spec_str());
            }
            s
        } else {
            u32_to_string(self.0)
        }
    }

    /// The sum of two quantities.
    pub fn add(self, rhs: Bytes) -> (r: Bytes)
        requires
            self.0 + rhs.0 <= u32::MAX,
        ensures
            r.0 == self.0 + rhs.0,
    {
        Bytes(self.0 + rhs.0)
    }

    /// The difference of two quantities.
    pub fn sub(self, rhs: Bytes) -> (r: Bytes)
        requires
            rhs.0 <= self.0,
        ensures
            r.0 == self.0 - rhs.0,
    {
        Bytes(self.0 - rhs.0)
    }
}

/// The views of a list of replacement pairs.
pub open spec fn pairs_view(s: Seq<(String, String)>) -> Seq<(Seq<char>, Seq<char>)> {
    s.map_values(|p: (String, String)| (p.0@, p.1@))
}

/// The text after applying every replacement pair to `t`, in order.
pub open spec fn spec_render(t: Seq<char>, ps: Seq<(Seq<char>, Seq<char>)>) -> Seq<char>
    decreases ps.len(),
{
    if ps.len() == 0 {
        t
    } else {
        spec_render(replace_of(t, ps[0].0, ps[0].1), ps.drop_first())
    }
}

/// True when no parameter occurs twice in a replacement list.
pub open spec fn keys_unique(ps: Seq<(String, String)>) -> bool {
    forall|i: int, j: int|
        0 <= i < j < ps.len() ==> (#[trigger] ps[i]).0@ != (#[trigger] ps[j]).0@
}

/// A simple but sufficient template engine: a template text and a mapping
/// from parameter to replacement text, applied in registration order.
pub struct Template<'a> {
    pub template: &'a str,
    pub replace: Vec<(String, String)>,
}

impl<'a> Template<'a> {
    /// Each parameter is registered at most once.
    pub open spec fn wf(&self) -> bool {
        keys_unique(self.replace@)
    }

    /// A template with no replacements yet.
    pub fn new(template: &'a str) -> (r: Template<'a>)
        ensures
            r.wf(),
            r.template@ == template@,
            r.replace@.len() == 0,
    {
        Template { template, replace: Vec::new() }
    }

    /// Registers a replacement.  A parameter registered before keeps its
    /// place but takes the new value; a new parameter is appended.
    pub fn replace(&mut self, param: &str, value: &str)
        requires
            old(self).wf(),
        ensures
            final(self).wf(),
            final(self).template == old(self).template,
            forall|j: int|
                0 <= j < old(self).replace@.len() && (#[trigger] old(self).replace@[j]).0@
                    == param@ ==> {
                    &&& final(self).replace@.len() == old(self).replace@.len()
                    &&& final(self).replace@[j].0@ == param@
                    &&& final(self).replace@[j].1@ == value@
                    &&& forall|k: int|
                        0 <= k < old(self).replace@.len() && k != j
                            ==> #[trigger] final(self).replace@[k] == old(self).replace@[k]
                },
            (forall|j: int|
                0 <= j < old(self).replace@.len() ==> (#[trigger] old(self).replace@[j]).0@
                    != param@) ==> {
                &&& final(self).replace@.len() == old(self).replace@.len() + 1
                &&& forall|k: int|
                    0 <= k < old(self).replace@.len()
                        ==> #[trigger] final(self).replace@[k] == old(self).replace@[k]
                &&& final(self).replace@.last().0@ == param@
                &&& final(self).replace@.last().1@ == value@
            },
    {
        let key = String::from_str(param);
        let n = self.replace.len();
        for i in 0..n
            invariant
                n == self.replace@.len(),
                key@ == param@,
                self.template == old(self).template,
                self.replace@ == old(self).replace@,
                old(self).wf(),
                forall|k: int|
                    0 <= k < i ==> (#[trigger] old(self).replace@[k]).0@ != param@,
        {
            if self.replace[i].0 == key {
                self.replace.set(i, (key, String::from_str(value)));
                proof {
                    assert forall|a: int, b: int|
                        0 <= a < b < final(self).replace@.len() implies (#[trigger] final(self).replace@[a]).0@
                        != (#[trigger] final(self).replace@[b]).0@ by {
                        assert(old(self).replace@[a].0@ != old(self).replace@[b].0@);
                    }
                }
                return ;
            }
        }
        self.replace.push((key, String::from_str(value)));
        proof {
            assert forall|a: int, b: int|
                0 <= a < b < final(self).replace@.len() implies (#[trigger] final(self).replace@[a]).0@
                != (#[trigger] final(self).replace@[b]).0@ by {
                if b < old(self).replace@.len() {
                    assert(old(self).replace@[a].0@ != old(self).replace@[b].0@);
                } else {
                    assert(old(self).replace@[a].0@ != param@);
                }
            }
        }
    }

    /// Applies every replacement to the template, in order.
    pub fn render(&self) -> (r: String)
        ensures
            r@ == spec_render(self.template@, pairs_view(self.replace@)),
    {
        let ghost ps = pairs_view(self.replace@);
        let mut curr = String::from_str(self.template);
        let n = self.replace.len();
        proof {
            assert(ps.skip(0) =~= ps);
        }
        for i in 0..n
            invariant
                n == self.replace@.len(),
                ps == pairs_view(self.replace@),
                spec_render(self.template@, ps) == spec_render(curr@, ps.skip(i as int)),
        {
            let pair = &self.replace[i];
            curr = str_replace(curr.as_str(), pair.0.as_str(), pair.1.as_str());
            proof {
                assert(ps.skip(i as int)[0] == ps[i as int]);
                assert(ps.skip(i as int).drop_first() =~= ps.skip(i + 1));
            }
        }
        proof {
            assert(ps.skip(n as int).len() == 0);
        }
        curr
    }
}

} // verus!
