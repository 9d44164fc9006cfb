//! Queries over the canteen list. Each query takes the outcome of fetching
//! the whole list: a failure passes through unchanged, and a list is
//! filtered in one scan that keeps its order.

use vstd::prelude::*;

use crate::gateway::FetchError;
use crate::model::{views, with_display_name_of, Canteen, CanteenView};

verus! {

/// Holds of the canteen with identifier `id`.
pub open spec fn has_id(id: u32) -> spec_fn(Canteen) -> bool {
    |c: Canteen| c.id == id
}

/// Holds of the canteens whose identifier is one of `ids`.
pub open spec fn id_in(ids: Seq<u32>) -> spec_fn(Canteen) -> bool {
    |c: Canteen| ids.contains(c.id)
}

/// Holds of the canteens whose raw name is `name`.
pub open spec fn named(name: Seq<char>) -> spec_fn(Canteen) -> bool {
    |c: Canteen| c.name@ == name
}

/// Whether `s` is one of the strings `strs`.
pub open spec fn among(strs: Seq<&str>, s: Seq<char>) -> bool {
    exists|k: int| 0 <= k < strs.len() && strs[k]@ == s
}

/// Holds of the canteens whose raw name is one of `names`.
pub open spec fn name_in(names: Seq<&str>) -> spec_fn(Canteen) -> bool {
    |c: Canteen| among(names, c.name@)
}

/// Holds of the canteens in `city`.
pub open spec fn in_city(city: Seq<char>) -> spec_fn(Canteen) -> bool {
    |c: Canteen| c.city@ == city
}

/// Holds of the canteens whose city is one of `cities`.
pub open spec fn city_in(cities: Seq<&str>) -> spec_fn(Canteen) -> bool {
    |c: Canteen| among(cities, c.city@)
}

/// The first element of `s`, if any.
pub open spec fn first_of(s: Seq<Canteen>) -> Option<Canteen> {
    if s.len() == 0 {
        None
    } else {
        Some(s[0])
    }
}

/// The canteens of `cs` that `p` selects, each with its display name.
pub open spec fn displayed(cs: Seq<Canteen>, p: spec_fn(Canteen) -> bool) -> Seq<CanteenView> {
    views(cs.filter(p)).map_values(|v: CanteenView| with_display_name_of(v))
}

proof fn lemma_filter_step(s: Seq<Canteen>, i: int, p: spec_fn(Canteen) -> bool)
    requires
        0 <= i < s.len(),
    ensures
        s.take(i + 1).filter(p) == if p(s[i]) {
            s.take(i).filter(p).push(s[i])
        } else {
            s.take(i).filter(p)
        },
{
    assert(s.take(i + 1) =~= s.take(i).push(s[i]));
    s.take(i).lemma_filter_push(s[i], p);
}

proof fn lemma_first_match(s: Seq<Canteen>, i: int, p: spec_fn(Canteen) -> bool)
    requires
        0 <= i < s.len(),
        s.take(i).filter(p) == Seq::<Canteen>::empty(),
        p(s[i]),
    ensures
        first_of(s.filter(p)) == Some(s[i]),
{
    lemma_filter_step(s, i, p);
    assert(s =~= s.take(i + 1) + s.skip(i + 1));
    Seq::filter_distributes_over_add(s.take(i + 1), s.skip(i + 1), p);
}

proof fn lemma_filter_all(s: Seq<Canteen>, p: spec_fn(Canteen) -> bool)
    ensures
        s.take(s.len() as int).filter(p) == s.filter(p),
{
    assert(s.take(s.len() as int) =~= s);
}

proof fn lemma_displayed_step(s: Seq<Canteen>, i: int, p: spec_fn(Canteen) -> bool)
    requires
        0 <= i < s.len(),
    ensures
        displayed(s.take(i + 1), p) == if p(s[i]) {
            displayed(s.take(i), p).push(with_display_name_of(s[i]@))
        } else {
            displayed(s.take(i), p)
        },
{
    lemma_filter_step(s, i, p);
    let f = s.take(i).filter(p);
    if p(s[i]) {
        assert(views(f.push(s[i])) =~= views(f).push(s[i]@));
        assert(views(f).push(s[i]@).map_values(|v: CanteenView| with_display_name_of(v))
            =~= views(f).map_values(|v: CanteenView| with_display_name_of(v)).push(
            with_display_name_of(s[i]@),
        ));
    }
}

/// Whether `id` is one of `ids`.
fn contains_id(ids: &Vec<u32>, id: u32) -> (r: bool)
    ensures
        r == ids@.contains(id),
{
    let mut k: usize = 0;
    while k < ids.len()
        invariant
            0 <= k <= ids.len(),
            forall|j: int| 0 <= j < k ==> ids@[j] != id,
        decreases ids.len() - k,
    {
        if ids[k] == id {
            return true;
        }
        k = k + 1;
    }
    false
}

/// Whether `s` is one of `strs`.
fn contains_str(strs: &Vec<&str>, s: &String) -> (r: bool)
    ensures
        r == among(strs@, s@),
{
    let mut k: usize = 0;
    while k < strs.len()
        invariant
            0 <= k <= strs.len(),
            forall|j: int| 0 <= j < k ==> strs@[j]@ != s@,
        decreases strs.len() - k,
    {
        let candidate = strs[k].to_owned();
        if candidate == *s {
            return true;
        }
        k = k + 1;
    }
    false
}

/// The canteen whose identifier is `id`, if the list holds one.
pub fn get_canteen_by_id(fetched: Result<Vec<Canteen>, FetchError>, id: u32) -> (r: Result<
    Option<Canteen>,
    FetchError,
>)
    ensures
        r == match fetched {
            Ok(cs) => Ok(first_of(cs@.filter(has_id(id)))),
            Err(e) => Err(e),
        },
        r matches Ok(Some(c)) ==> c.id == id,
{
    let cs = match fetched {
        Ok(cs) => cs,
        Err(e) => return Err(e),
    };
    let mut i: usize = 0;
    while i < cs.len()
        invariant
            0 <= i <= cs.len(),
            fetched == Ok::<Vec<Canteen>, FetchError>(cs),
            cs@.take(i as int).filter(has_id(id)) == Seq::<Canteen>::empty(),
        decreases cs.len() - i,
    {
        proof {
            lemma_filter_step(cs@, i as int, has_id(id));
        }
        if cs[i].id == id {
            proof {
                lemma_first_match(cs@, i as int, has_id(id));
            }
            let c = cs[i].clone();
            return Ok(Some(c));
        }
        i = i + 1;
    }
    proof {
        lemma_filter_all(cs@, has_id(id));
    }
    Ok(None)
}

/// The canteen whose raw name is exactly `name`, if the list holds one;
/// the first such canteen where several share the name.
pub fn get_canteen_by_name(fetched: Result<Vec<Canteen>, FetchError>, name: &str) -> (r: Result<
    Option<Canteen>,
    FetchError,
>)
    ensures
        r == match fetched {
            Ok(cs) => Ok(first_of(cs@.filter(named(name@)))),
            Err(e) => Err(e),
        },
        r matches Ok(Some(c)) ==> c.name@ == name@,
{
    let cs = match fetched {
        Ok(cs) => cs,
        Err(e) => return Err(e),
    };
    let target = name.to_owned();
    let mut i: usize = 0;
    while i < cs.len()
        invariant
            0 <= i <= cs.len(),
            fetched == Ok::<Vec<Canteen>, FetchError>(cs),
            target@ == name@,
            cs@.take(i as int).filter(named(name@)) == Seq::<Canteen>::empty(),
        decreases cs.len() - i,
    {
        proof {
            lemma_filter_step(cs@, i as int, named(name@));
        }
        if cs[i].name == target {
            proof {
                lemma_first_match(cs@, i as int, named(name@));
            }
            let c = cs[i].clone();
            return Ok(Some(c));
        }
        i = i + 1;
    }
    proof {
        lemma_filter_all(cs@, named(name@));
    }
    Ok(None)
}

/// The canteens whose identifier is one of `ids`, in the order of the list.
pub fn get_canteens_by_ids(fetched: Result<Vec<Canteen>, FetchError>, ids: Vec<u32>) -> (r: Result<
    Vec<Canteen>,
    FetchError,
>)
    ensures
        match fetched {
            Ok(cs) => r matches Ok(found) && found@ == cs@.filter(id_in(ids@)),
            Err(e) => r == Err::<Vec<Canteen>, FetchError>(e),
        },
{
    let cs = match fetched {
        Ok(cs) => cs,
        Err(e) => return Err(e),
    };
    let mut found: Vec<Canteen> = Vec::new();
    let mut i: usize = 0;
    while i < cs.len()
        invariant
            0 <= i <= cs.len(),
            fetched == Ok::<Vec<Canteen>, FetchError>(cs),
            found@ == cs@.take(i as int).filter(id_in(ids@)),
        decreases cs.len() - i,
    {
        proof {
            lemma_filter_step(cs@, i as int, id_in(ids@));
        }
        if contains_id(&ids, cs[i].id) {
            found.push(cs[i].clone());
        }
        i = i + 1;
    }
    proof {
        lemma_filter_all(cs@, id_in(ids@));
    }
    Ok(found)
}

/// The canteens whose raw name is one of `names`, in the order of the list.
pub fn get_canteens_by_names(fetched: Result<Vec<Canteen>, FetchError>, names: Vec<&str>) -> (r:
    Result<Vec<Canteen>, FetchError>)
    ensures
        match fetched {
            Ok(cs) => r matches Ok(found) && found@ == cs@.filter(name_in(names@)),
            Err(e) => r == Err::<Vec<Canteen>, FetchError>(e),
        },
{
    let cs = match fetched {
        Ok(cs) => cs,
        Err(e) => return Err(e),
    };
    let mut found: Vec<Canteen> = Vec::new();
    let mut i: usize = 0;
    while i < cs.len()
        invariant
            0 <= i <= cs.len(),
            fetched == Ok::<Vec<Canteen>, FetchError>(cs),
            found@ == cs@.take(i as int).filter(name_in(names@)),
        decreases cs.len() - i,
    {
        proof {
            lemma_filter_step(cs@, i as int, name_in(names@));
        }
        if contains_str(&names, &cs[i].name) {
            found.push(cs[i].clone());
        }
        i = i + 1;
    }
    proof {
        lemma_filter_all(cs@, name_in(names@));
    }
    Ok(found)
}

/// The canteens in `location` (a city), in the order of the list, each with
/// its name replaced by the display name derived from the raw name.
pub fn get_canteens_by_location(fetched: Result<Vec<Canteen>, FetchError>, location: &str) -> (r:
    Result<Vec<Canteen>, FetchError>)
    ensures
        match fetched {
            Ok(cs) => r matches Ok(found) && views(found@) == displayed(cs@, in_city(location@)),
            Err(e) => r == Err::<Vec<Canteen>, FetchError>(e),
        },
{
    let cs = match fetched {
        Ok(cs) => cs,
        Err(e) => return Err(e),
    };
    let city = location.to_owned();
    let mut found: Vec<Canteen> = Vec::new();
    let mut i: usize = 0;
    while i < cs.len()
        invariant
            0 <= i <= cs.len(),
            fetched == Ok::<Vec<Canteen>, FetchError>(cs),
            city@ == location@,
            views(found@) == displayed(cs@.take(i as int), in_city(location@)),
        decreases cs.len() - i,
    {
        proof {
            lemma_displayed_step(cs@, i as int, in_city(location@));
        }
        if cs[i].city == city {
            let c = cs[i].with_display_name();
            proof {
                assert(views(found@.push(c)) =~= views(found@).push(c@));
            }
            found.push(c);
        }
        i = i + 1;
    }
    proof {
        lemma_filter_all(cs@, in_city(location@));
    }
    Ok(found)
}

/// The canteens whose city is one of `locations`, in the order of the list,
/// each with its name replaced by the display name derived from the raw name.
pub fn get_canteens_by_locations(fetched: Result<Vec<Canteen>, FetchError>, locations: Vec<&str>) -> (r:
    Result<Vec<Canteen>, FetchError>)
    ensures
        match fetched {
            Ok(cs) => r matches Ok(found) && views(found@) == displayed(cs@, city_in(locations@)),
            Err(e) => r == Err::<Vec<Canteen>, FetchError>(e),
        },
{
    let cs = match fetched {
        Ok(cs) => cs,
        Err(e) => return Err(e),
    };
    let mut found: Vec<Canteen> = Vec::new();
    let mut i: usize = 0;
    while i < cs.len()
        invariant
            0 <= i <= cs.len(),
            fetched == Ok::<Vec<Canteen>, FetchError>(cs),
            views(found@) == displayed(cs@.take(i as int), city_in(locations@)),
        decreases cs.len() - i,
    {
        proof {
            lemma_displayed_step(cs@, i as int, city_in(locations@));
        }
        if contains_str(&locations, &cs[i].city) {
            let c = cs[i].with_display_name();
            proof {
                assert(views(found@.push(c)) =~= views(found@).push(c@));
            }
            found.push(c);
        }
        i = i + 1;
    }
    proof {
        lemma_filter_all(cs@, city_in(locations@));
    }
    Ok(found)
}

/// The identifiers of a sequence of canteens, one for one.
pub open spec fn ids_of(cs: Seq<Canteen>) -> Seq<u32> {
    cs.map_values(|c: Canteen| c.id)
}

/// No two canteens of `cs` share an identifier.
pub open spec fn unique_ids(cs: Seq<Canteen>) -> bool {
    forall|i: int, j: int| 0 <= i < cs.len() && 0 <= j < cs.len() && cs[i].id == cs[j].id ==> i == j
}

/// Selecting by a set of identifiers from a list with unique identifiers
/// gives exactly the identifiers that are both asked for and in the list,
/// each of them once.
pub proof fn lemma_by_ids_exact(cs: Seq<Canteen>, ids: Seq<u32>)
    requires
        unique_ids(cs),
    ensures
        forall|x: u32|
            #[trigger] ids_of(cs.filter(id_in(ids))).contains(x) <==> (ids.contains(x) && ids_of(
                cs,
            ).contains(x)),
        ids_of(cs.filter(id_in(ids))).no_duplicates(),
    decreases cs.len(),
{
    let p = id_in(ids);
    if cs.len() == 0 {
        assert(cs.filter(p) =~= Seq::<Canteen>::empty()) by {
            cs.lemma_filter_len(p);
        }
        assert(ids_of(cs.filter(p)) =~= Seq::<u32>::empty());
        assert(ids_of(cs) =~= Seq::<u32>::empty());
    } else {
        let s = cs.drop_last();
        let last = cs.last();
        assert(cs =~= s.push(last));
        assert(unique_ids(s));
        lemma_by_ids_exact(s, ids);
        s.lemma_filter_push(last, p);
        assert(ids_of(cs) =~= ids_of(s).push(last.id));
        assert(!ids_of(s).contains(last.id)) by {
            if ids_of(s).contains(last.id) {
                let j = choose|j: int| 0 <= j < ids_of(s).len() && ids_of(s)[j] == last.id;
                assert(cs[j].id == cs[cs.len() - 1].id);
            }
        }
        let before = ids_of(s.filter(p));
        if p(last) {
            assert(ids_of(cs.filter(p)) =~= before.push(last.id));
            lemma_push_contains(before, last.id);
            lemma_push_contains(ids_of(s), last.id);
            assert(!before.contains(last.id));
            assert(ids_of(cs.filter(p)).no_duplicates()) by {
                let after = before.push(last.id);
                assert forall|i: int, j: int|
                    0 <= i < after.len() && 0 <= j < after.len() && i != j implies after[i]
                    != after[j] by {
                    if i == after.len() - 1 {
                        assert(before[j] == after[j]);
                        if before[j] == last.id {
                            assert(before.contains(last.id));
                        }
                    } else if j == after.len() - 1 {
                        assert(before[i] == after[i]);
                        if before[i] == last.id {
                            assert(before.contains(last.id));
                        }
                    } else {
                        assert(before[i] == after[i] && before[j] == after[j]);
                    }
                }
            }
        } else {
            lemma_push_contains(ids_of(s), last.id);
        }
    }
}

proof fn lemma_push_contains(s: Seq<u32>, a: u32)
    ensures
        forall|x: u32| #[trigger] s.push(a).contains(x) <==> (s.contains(x) || x == a),
{
    assert forall|x: u32| #[trigger] s.push(a).contains(x) <==> (s.contains(x) || x == a) by {
        if s.contains(x) {
            let k = choose|k: int| 0 <= k < s.len() && s[k] == x;
            assert(s.push(a)[k] == x);
        }
        if x == a {
            assert(s.push(a)[s.len() as int] == x);
        }
        if s.push(a).contains(x) && x != a {
            let k = choose|k: int| 0 <= k < s.push(a).len() && s.push(a)[k] == x;
            assert(s[k] == x);
        }
    }
}

} // verus!
