use vstd::prelude::*;

verus! {

/// A registry entry names a thermometer device: its name begins with the
/// thermometer family's prefix `28-`.
pub open spec fn is_sensor_name(s: Seq<char>) -> bool {
    s.len() >= 3 && s.subrange(0, 3) == "28-"@
}

/// `s` begins with the thermometer family's prefix `28-`.
fn has_sensor_prefix(s: &str) -> (r: bool)
    ensures
        r == is_sensor_name(s@),
{
    proof {
        reveal_strlit("28-");
    }
    let len = s.unicode_len();
    if len < 3 {
        return false;
    }
    let r = s.get_char(0) == '2' && s.get_char(1) == '8' && s.get_char(2) == '-';
    proof {
        if r {
            assert(s@.subrange(0, 3) =~= "28-"@);
        } else {
            assert(s@.subrange(0, 3)[0] == s@[0]);
            assert(s@.subrange(0, 3)[1] == s@[1]);
            assert(s@.subrange(0, 3)[2] == s@[2]);
        }
    }
    r
}

/// Keeps, of the registry entries given, exactly the names of thermometer
/// devices — those beginning with `28-` — in the order in which the registry
/// produced them. The registry's own enumeration order is passed through
/// unchanged; none is imposed here.
pub fn filter_sensor_names(entries: &Vec<String>) -> (r: Vec<String>)
    ensures
        r@.map_values(|s: String| s@) == entries@.map_values(|s: String| s@).filter(
            |s: Seq<char>| is_sensor_name(s),
        ),
{
    let ghost pred = |s: Seq<char>| is_sensor_name(s);
    let mut r: Vec<String> = Vec::new();
    let mut i: usize = 0;
    proof {
        assert(entries@.subrange(0, 0).map_values(|s: String| s@) =~= Seq::<Seq<char>>::empty());
        reveal(Seq::filter);
        assert(r@.map_values(|s: String| s@) =~= entries@.subrange(0, 0).map_values(
            |s: String| s@,
        ).filter(pred));
    }
    while i < entries.len()
        invariant
            i <= entries@.len(),
            pred == (|s: Seq<char>| is_sensor_name(s)),
            r@.map_values(|s: String| s@) == entries@.subrange(0, i as int).map_values(
                |s: String| s@,
            ).filter(pred),
        decreases entries@.len() - i,
    {
        let ghost prev = entries@.subrange(0, i as int).map_values(|s: String| s@);
        let ghost cur = entries@.subrange(0, i + 1).map_values(|s: String| s@);
        proof {
            assert(cur =~= prev.push(entries@[i as int]@));
            assert(cur.drop_last() =~= prev);
            reveal(Seq::filter);
        }
        if has_sensor_prefix(entries[i].as_str()) {
            let name = entries[i].clone();
            r.push(name);
            proof {
                assert(r@.map_values(|s: String| s@) =~= prev.filter(pred).push(
                    entries@[i as int]@,
                ));
            }
        } else {
            proof {
                assert(cur.filter(pred) == prev.filter(pred));
            }
        }
        i = i + 1;
    }
    proof {
        assert(entries@.subrange(0, entries@.len() as int) =~= entries@);
    }
    r
}

} // verus!
