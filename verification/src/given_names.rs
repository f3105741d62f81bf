//! Lookup tables of male and female given names, each mapped to its
//! knowledge-base item number. The caller fills the tables; the lookups
//! here are verified.

use vstd::prelude::*;

verus! {

/// The item number of the first entry with the given name, if any.
pub open spec fn spec_name_lookup(list: Seq<(Seq<char>, usize)>, name: Seq<char>) -> Option<
    usize,
>
    decreases list.len(),
{
    if list.len() == 0 {
        Option::None
    } else if list[0].0 == name {
        Option::Some(list[0].1)
    } else {
        spec_name_lookup(list.skip(1), name)
    }
}

/// Given names known to the gender heuristic, with their item numbers.
pub struct GivenNames {
    pub male: Vec<(String, usize)>,
    pub female: Vec<(String, usize)>,
}

/// Look a name up in one table.
fn lookup(list: &Vec<(String, usize)>, name: &str) -> (r: Option<usize>)
    ensures
        r == spec_name_lookup(
            list@.map_values(|p: (String, usize)| (p.0@, p.1)),
            name@,
        ),
{
    let p = name.to_owned();
    let n = list.len();
    let ghost lv = list@.map_values(|q: (String, usize)| (q.0@, q.1));
    let mut i: usize = 0;
    proof {
        assert(lv.skip(0) =~= lv);
    }
    while i < n
        invariant
            n == lv.len(),
            lv == list@.map_values(|q: (String, usize)| (q.0@, q.1)),
            n == list@.len(),
            i <= n,
            p@ == name@,
            spec_name_lookup(lv, name@) == spec_name_lookup(lv.skip(i as int), name@),
        decreases n - i,
    {
        let ghost rest = lv.skip(i as int);
        assert(rest[0] == lv[i as int]);
        assert(lv[i as int] == (list@[i as int].0@, list@[i as int].1));
        if list[i].0.eq(&p) {
            return Option::Some(list[i].1);
        }
        i += 1;
        proof {
            assert(rest.skip(1) =~= lv.skip(i as int));
        }
    }
    proof {
        assert(lv.skip(n as int) =~= Seq::<(Seq<char>, usize)>::empty());
    }
    Option::None
}

impl GivenNames {
    /// Tables handed in by the caller.
    pub fn new(male: Vec<(String, usize)>, female: Vec<(String, usize)>) -> (r: GivenNames)
        ensures
            r.male == male,
            r.female == female,
    {
        GivenNames { male, female }
    }

    /// Whether the name is a known male given name.
    pub fn is_male(&self, name: &str) -> (r: bool)
        ensures
            r == (spec_name_lookup(
                self.male@.map_values(|p: (String, usize)| (p.0@, p.1)),
                name@,
            ) is Some),
    {
        match lookup(&self.male, name) {
            Option::Some(_) => true,
            Option::None => false,
        }
    }

    /// Whether the name is a known female given name.
    pub fn is_female(&self, name: &str) -> (r: bool)
        ensures
            r == (spec_name_lookup(
                self.female@.map_values(|p: (String, usize)| (p.0@, p.1)),
                name@,
            ) is Some),
    {
        match lookup(&self.female, name) {
            Option::Some(_) => true,
            Option::None => false,
        }
    }

    /// The item number of the name, male names taking precedence.
    pub fn name2qid(&self, name: &str) -> (r: Option<usize>)
        ensures
            r == (match spec_name_lookup(
                self.male@.map_values(|p: (String, usize)| (p.0@, p.1)),
                name@,
            ) {
                Option::Some(q) => Option::Some(q),
                Option::None => spec_name_lookup(
                    self.female@.map_values(|p: (String, usize)| (p.0@, p.1)),
                    name@,
                ),
            }),
    {
        match lookup(&self.male, name) {
            Option::Some(q) => Option::Some(q),
            Option::None => lookup(&self.female, name),
        }
    }
}

} // verus!
