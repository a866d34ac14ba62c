//! Best-effort extraction of byte counters from a textual progress
//! event: the first run of decimal digits is read as the received
//! count, the second as the total, and a run too large for a machine
//! word is skipped.
use vstd::prelude::*;

verus! {

use vstd::string::StringSliceAdditionalSpecFns;

/// One past the largest value a `u64` can hold.
pub open spec fn word_limit() -> nat {
    0x1_0000_0000_0000_0000
}

/// An ASCII decimal digit.
pub open spec fn is_digit_byte(b: u8) -> bool {
    48 <= b <= 57
}

/// Numbers read from `s` starting at position `i`, while inside a
/// digit run of accumulated value `cur` (`None` when between runs).
/// A maximal digit run yields its value; runs whose value does not fit
/// a `u64` are dropped.
pub open spec fn nums_from(s: Seq<u8>, i: int, cur: Option<nat>) -> Seq<nat>
    decreases s.len() - i,
{
    if i < 0 || i >= s.len() {
        match cur {
            None => Seq::empty(),
            Some(v) => if v < word_limit() {
                seq![v]
            } else {
                Seq::empty()
            },
        }
    } else if is_digit_byte(s[i]) {
        let d = (s[i] - 48) as nat;
        let v2 = match cur {
            None => d,
            Some(v) => v * 10 + d,
        };
        nums_from(s, i + 1, Some(v2))
    } else {
        match cur {
            None => nums_from(s, i + 1, None),
            Some(v) => if v < word_limit() {
                seq![v] + nums_from(s, i + 1, None)
            } else {
                nums_from(s, i + 1, None)
            },
        }
    }
}

/// All numbers spelled by maximal digit runs of `s`, in order, with
/// over-wide runs dropped.
pub open spec fn parsed_numbers(s: Seq<u8>) -> Seq<nat> {
    nums_from(s, 0, None)
}

/// Reads the first one or two unsigned integers out of a progress
/// event's text: the first digit run is the received count, the second
/// (if any) the total.  Returns `None` when the text spells no number
/// that fits a machine word.
pub fn progress_bytes(s: &str) -> (r: Option<(u64, Option<u64>)>)
    ensures
        (parsed_numbers(s.spec_bytes()).len() == 0) == (r is None),
        r matches Some((a, b)) ==> {
            let ns = parsed_numbers(s.spec_bytes());
            &&& ns.len() >= 1
            &&& a as nat == ns[0]
            &&& (b is Some <==> ns.len() >= 2)
            &&& (b matches Some(t) ==> t as nat == ns[1])
        },
{
    let bytes = s.as_bytes();
    let ghost full = s.spec_bytes();
    let ghost ns = parsed_numbers(full);
    let mut collected: Vec<u64> = Vec::new();
    let mut active: bool = false;
    let mut over: bool = false;
    let mut cur: u64 = 0;
    let ghost mut cur_spec: Option<nat> = None;
    let mut i: usize = 0;
    proof {
        assert(collected@.map_values(|x: u64| x as nat) =~= Seq::<nat>::empty());
        assert(ns == collected@.map_values(|x: u64| x as nat) + nums_from(full, 0, cur_spec));
    }
    while i < bytes.len()
        invariant
            i <= full.len(),
            bytes@ == full,
            ns == parsed_numbers(full),
            active == (cur_spec is Some),
            !active ==> !over && cur == 0,
            active && !over ==> cur_spec == Some(cur as nat) && (cur as nat) < word_limit(),
            active && over ==> (cur_spec matches Some(v) && v >= word_limit()),
            ns == collected@.map_values(|x: u64| x as nat) + nums_from(full, i as int, cur_spec),
        decreases full.len() - i,
    {
        let b = bytes[i];
        let ghost col0 = collected@.map_values(|x: u64| x as nat);
        if b >= 48 && b <= 57 {
            let d = b - 48;
            if !active {
                active = true;
                over = false;
                cur = d as u64;
                proof {
                    cur_spec = Some(d as nat);
                }
            } else if !over {
                let wide: u128 = (cur as u128) * 10 + (d as u128);
                proof {
                    cur_spec = Some((cur_spec->Some_0 * 10 + d as nat));
                }
                if wide > u64::MAX as u128 {
                    over = true;
                    cur = 0;
                } else {
                    cur = wide as u64;
                }
            } else {
                proof {
                    let prev = cur_spec->Some_0;
                    cur_spec = Some((prev * 10 + d as nat));
                    assert(prev * 10 >= prev) by (nonlinear_arith)
                        requires
                            prev >= 0,
                    ;
                }
            }
        } else {
            if active && !over {
                let v = cur;
                collected.push(v);
                proof {
                    assert(collected@.map_values(|x: u64| x as nat) =~= col0.push(v as nat));
                    assert(nums_from(full, i as int, cur_spec) =~= seq![v as nat] + nums_from(
                        full,
                        i as int + 1,
                        None,
                    ));
                    assert(col0 + (seq![v as nat] + nums_from(full, i as int + 1, None)) =~= (col0
                        + seq![v as nat]) + nums_from(full, i as int + 1, None));
                    assert(col0 + seq![v as nat] =~= col0.push(v as nat));
                }
            }
            active = false;
            over = false;
            cur = 0;
            proof {
                cur_spec = None;
            }
        }
        i = i + 1;
    }
    if active && !over {
        let v = cur;
        let ghost col0 = collected@.map_values(|x: u64| x as nat);
        collected.push(v);
        proof {
            assert(collected@.map_values(|x: u64| x as nat) =~= col0.push(v as nat));
            assert(nums_from(full, full.len() as int, cur_spec) =~= seq![v as nat]);
            assert(col0 + seq![v as nat] =~= col0.push(v as nat));
        }
    }
    proof {
        if cur_spec is None || (active && over) {
            assert(nums_from(full, full.len() as int, cur_spec) =~= Seq::<nat>::empty());
        }
        assert(ns =~= collected@.map_values(|x: u64| x as nat));
    }
    if collected.len() == 0 {
        None
    } else {
        let a = collected[0];
        let b = if collected.len() >= 2 {
            Some(collected[1])
        } else {
            None
        };
        proof {
            assert(ns[0] == collected@.map_values(|x: u64| x as nat)[0]);
            if collected@.len() >= 2 {
                assert(ns[1] == collected@.map_values(|x: u64| x as nat)[1]);
            }
        }
        Some((a, b))
    }
}

} // verus!
