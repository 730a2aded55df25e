//! Functions and closures as values: passing them by function pointer or by
//! trait bound, with the caller reasoning through their contracts.

use vstd::prelude::*;

verus! {

/// A city, with an integer risk score: a positive score means the city is
/// at risk of a monster attack.
pub struct City {
    pub name: String,
    pub population: i64,
    pub monster_attack_risk: u32,
}

/// The negated population, a sort key for descending order.
pub fn city_population_descending(city: &City) -> (key: i64)
    requires
        city.population > i64::MIN,
    ensures
        key == -city.population,
{
    -city.population
}

/// Whether the city's risk score is positive.
pub fn has_monster_attack(city: &City) -> (result: bool)
    ensures
        result == (city.monster_attack_risk > 0),
{
    city.monster_attack_risk > 0
}

/// How many of the flags are set.
pub open spec fn count_true(flags: Seq<bool>) -> int
    decreases flags.len(),
{
    if flags.len() == 0 {
        0
    } else {
        count_true(flags.drop_last()) + if flags.last() {
            1int
        } else {
            0int
        }
    }
}

/// Counts the cities the test accepts, calling the test once per city: some
/// sequence of verdicts the test may give has exactly this many accepts.
pub fn count_selected_cities(cities: &Vec<City>, test_fn: impl Fn(&City) -> bool) -> (count: usize)
    requires
        forall|i: int| 0 <= i < cities@.len() ==> call_requires(test_fn, (&cities@[i],)),
    ensures
        count <= cities@.len(),
        exists|flags: Seq<bool>|
            {
                &&& flags.len() == cities@.len()
                &&& forall|i: int|
                    0 <= i < flags.len() ==> call_ensures(test_fn, (&cities@[i],), #[trigger] flags[i])
                &&& count == count_true(flags)
            },
{
    let mut count: usize = 0;
    let ghost mut flags: Seq<bool> = Seq::empty();
    let mut i: usize = 0;
    while i < cities.len()
        invariant
            i <= cities@.len(),
            flags.len() == i,
            forall|j: int| 0 <= j < i ==> call_ensures(test_fn, (&cities@[j],), #[trigger] flags[j]),
            count == count_true(flags),
            count <= i,
            forall|j: int| 0 <= j < cities@.len() ==> call_requires(test_fn, (&cities@[j],)),
        decreases cities@.len() - i,
    {
        let verdict = test_fn(&cities[i]);
        proof {
            let extended = flags.push(verdict);
            assert(extended.drop_last() =~= flags);
            flags = extended;
        }
        if verdict {
            count = count + 1;
        }
        i = i + 1;
    }
    count
}

/// The same count, with the test passed by trait bound instead of by
/// function pointer.
pub fn count_selected_cities2<F: Fn(&City) -> bool>(cities: &Vec<City>, test_fn: F) -> (count:
    usize)
    requires
        forall|i: int| 0 <= i < cities@.len() ==> call_requires(test_fn, (&cities@[i],)),
    ensures
        count <= cities@.len(),
        exists|flags: Seq<bool>|
            {
                &&& flags.len() == cities@.len()
                &&& forall|i: int|
                    0 <= i < flags.len() ==> call_ensures(test_fn, (&cities@[i],), #[trigger] flags[i])
                &&& count == count_true(flags)
            },
{
    let mut count: usize = 0;
    let ghost mut flags: Seq<bool> = Seq::empty();
    let mut i: usize = 0;
    while i < cities.len()
        invariant
            i <= cities@.len(),
            flags.len() == i,
            forall|j: int| 0 <= j < i ==> call_ensures(test_fn, (&cities@[j],), #[trigger] flags[j]),
            count == count_true(flags),
            count <= i,
            forall|j: int| 0 <= j < cities@.len() ==> call_requires(test_fn, (&cities@[j],)),
        decreases cities@.len() - i,
    {
        let verdict = test_fn(&cities[i]);
        proof {
            let extended = flags.push(verdict);
            assert(extended.drop_last() =~= flags);
            flags = extended;
        }
        if verdict {
            count = count + 1;
        }
        i = i + 1;
    }
    count
}

/// Calls a closure twice; a `Fn` closure can be called any number of times.
pub fn call_twice<F: Fn()>(closure: F)
    requires
        call_requires(closure, ()),
{
    closure();
    closure();
}

/// Calls a closure twice through a mutable binding; an `FnMut` closure may
/// mutate what it captures, and may also be called any number of times.
pub fn call_twice2<F: FnMut()>(mut closure: F)
    requires
        call_requires(closure, ()),
{
    closure();
    closure();
}

/// A test whose verdict is pinned by its contract lets the caller compute
/// the exact count: of these two cities, exactly the one with a positive
/// risk score is selected.
pub fn use_fn_closure() {
    let mut cities: Vec<City> = Vec::new();
    cities.push(City { name: "bj".to_owned(), population: 18, monster_attack_risk: 90 });
    cities.push(City { name: "sh".to_owned(), population: 25, monster_attack_risk: 0 });
    let n = count_selected_cities(&cities, has_monster_attack);
    proof {
        let flags = choose|flags: Seq<bool>|
            {
                &&& flags.len() == cities@.len()
                &&& forall|i: int|
                    0 <= i < flags.len() ==> call_ensures(
                        has_monster_attack,
                        (&cities@[i],),
                        #[trigger] flags[i],
                    )
                &&& n == count_true(flags)
            };
        assert(flags[0] == true);
        assert(flags[1] == false);
        assert(flags =~= seq![true, false]);
        assert(count_true(seq![true, false]) == 1) by {
            reveal_with_fuel(count_true, 3);
            assert(seq![true, false].drop_last() =~= seq![true]);
            assert(seq![true].drop_last() =~= Seq::<bool>::empty());
        }
    }
    assert(n == 1);
    let n2 = count_selected_cities2(&cities, has_monster_attack);
    proof {
        let flags = choose|flags: Seq<bool>|
            {
                &&& flags.len() == cities@.len()
                &&& forall|i: int|
                    0 <= i < flags.len() ==> call_ensures(
                        has_monster_attack,
                        (&cities@[i],),
                        #[trigger] flags[i],
                    )
                &&& n2 == count_true(flags)
            };
        assert(flags[0] == true);
        assert(flags[1] == false);
        assert(flags =~= seq![true, false]);
        assert(count_true(seq![true, false]) == 1) by {
            reveal_with_fuel(count_true, 3);
            assert(seq![true, false].drop_last() =~= seq![true]);
            assert(seq![true].drop_last() =~= Seq::<bool>::empty());
        }
    }
    assert(n2 == 1);
}

} // verus!
