//! Startup configuration: the four whitelists, each given as a
//! comma-separated list of pin indices.
use vstd::prelude::*;

verus! {

use crate::pins::GpioIndex;
use crate::text::{find_char_from, lemma_find_char_from, parse_u8_str, spec_parse_u8};

/// The four whitelist sets, immutable after construction: indices permitted
/// for get and set on the physical backend, and for get and set on the
/// simulated backend.
#[derive(Clone)]
pub struct PinSet {
    pub get_whitelist: Vec<GpioIndex>,
    pub set_whitelist: Vec<GpioIndex>,
    pub get_simulated: Vec<GpioIndex>,
    pub set_simulated: Vec<GpioIndex>,
}

/// Each whitelist models a set: no index is listed twice.
pub open spec fn no_dups(s: Seq<u8>) -> bool {
    forall|i: int, j: int| 0 <= i < j < s.len() ==> s[i] != s[j]
}

impl PinSet {
    pub open spec fn wf(&self) -> bool {
        no_dups(self.get_whitelist@) && no_dups(self.set_whitelist@) && no_dups(
            self.get_simulated@,
        ) && no_dups(self.set_simulated@)
    }
}

/// Whether one comma-separated entry is acceptable: empty entries are
/// skipped, anything else must parse as a pin index.
pub open spec fn chunk_ok(c: Seq<char>) -> bool {
    c.len() == 0 || spec_parse_u8(c) is Some
}

/// The set of indices one entry contributes.
pub open spec fn chunk_vals(c: Seq<char>) -> Set<u8> {
    match spec_parse_u8(c) {
        Some(v) => set![v],
        None => Set::empty(),
    }
}

/// Whether every entry of the list text, from position `p` on, is acceptable.
pub open spec fn list_ok_from(s: Seq<char>, p: int) -> bool
    decreases s.len() - p,
{
    let j = find_char_from(s, ',', p);
    if j < p || j >= s.len() {
        chunk_ok(s.subrange(p, s.len() as int))
    } else {
        chunk_ok(s.subrange(p, j)) && list_ok_from(s, j + 1)
    }
}

/// The set of indices the list text names, from position `p` on.
pub open spec fn list_vals_from(s: Seq<char>, p: int) -> Set<u8>
    decreases s.len() - p,
{
    let j = find_char_from(s, ',', p);
    if j < p || j >= s.len() {
        chunk_vals(s.subrange(p, s.len() as int))
    } else {
        chunk_vals(s.subrange(p, j)).union(list_vals_from(s, j + 1))
    }
}

/// Loop bookkeeping for `parse_gpio_list`: the indices named by the whole
/// text are those already collected plus those named from position `p` on.
pub open spec fn vals_inv(s: Seq<char>, out: Seq<u8>, p: int) -> bool {
    forall|x: u8|
        #![trigger list_vals_from(s, 0).contains(x)]
        #![trigger out.contains(x)]
        list_vals_from(s, 0).contains(x) <==> (out.contains(x) || list_vals_from(s, p).contains(x))
}

/// An empty whitelist text is acceptable and names no index at all.
pub proof fn lemma_empty_list(s: Seq<char>)
    requires
        s.len() == 0,
    ensures
        list_ok_from(s, 0),
        list_vals_from(s, 0) =~= Set::<u8>::empty(),
{
    assert(find_char_from(s, ',', 0) == -1);
    assert(s.subrange(0, s.len() as int) =~= s);
    assert(spec_parse_u8(s) is None);
}

pub(crate) fn contains_u8(v: &Vec<u8>, x: u8) -> (r: bool)
    ensures
        r == v@.contains(x),
{
    let mut i: usize = 0;
    while i < v.len()
        invariant
            i <= v@.len(),
            forall|k: int| 0 <= k < i ==> v@[k] != x,
        decreases v@.len() - i,
    {
        if v[i] == x {
            return true;
        }
        i = i + 1;
    }
    false
}

/// Parses a comma-separated whitelist into the set of pin indices it names.
/// Succeeds exactly when every entry is empty or a decimal pin index; the
/// result lists each named index once, so re-collecting it as a set gives
/// exactly the set the text names, in whatever order the entries came.
#[verifier::loop_isolation(false)]
pub fn parse_gpio_list(gpio_list_str: &str) -> (r: Result<Vec<GpioIndex>, String>)
    ensures
        r is Ok <==> list_ok_from(gpio_list_str@, 0),
        r matches Ok(v) ==> no_dups(v@) && forall|x: u8|
            v@.contains(x) <==> list_vals_from(gpio_list_str@, 0).contains(x),
{
    let ghost s = gpio_list_str@;
    let len = gpio_list_str.unicode_len();
    let mut out: Vec<u8> = Vec::new();
    let mut p: usize = 0;
    loop
        invariant
            s == gpio_list_str@,
            p <= len == s.len(),
            no_dups(out@),
            list_ok_from(s, 0) == list_ok_from(s, p as int),
            vals_inv(s, out@, p as int),
            forall|x: u8| #![auto] out@.contains(x) ==> list_vals_from(s, 0).contains(x),
        decreases len - p,
    {
        let next = crate::text::find_char_str(gpio_list_str, p, ',');
        proof {
            lemma_find_char_from(s, ',', p as int);
        }
        let end = match next {
            Some(j) => j,
            None => len,
        };
        let ghost chunk_s = s.subrange(p as int, end as int);
        proof {
            let j = find_char_from(s, ',', p as int);
            if next is Some {
                assert(j == end && p <= end < len);
                assert(list_ok_from(s, p as int) == (chunk_ok(chunk_s) && list_ok_from(
                    s,
                    end + 1,
                )));
                assert(list_vals_from(s, p as int) == chunk_vals(chunk_s).union(
                    list_vals_from(s, end + 1),
                ));
            } else {
                assert(j == -1);
                assert(chunk_s == s.subrange(p as int, len as int));
                assert(list_ok_from(s, p as int) == chunk_ok(chunk_s));
                assert(list_vals_from(s, p as int) == chunk_vals(chunk_s));
            }
        }
        let ghost prev_out = out@;
        if end > p {
            let chunk = gpio_list_str.substring_char(p, end);
            match parse_u8_str(chunk) {
                Some(v) => {
                    if !contains_u8(&out, v) {
                        out.push(v);
                        proof {
                            assert(out@ == prev_out.push(v));
                            assert(out@[out@.len() - 1] == v);
                            assert(forall|k: int|
                                0 <= k < prev_out.len() ==> out@[k] == prev_out[k]);
                            assert(no_dups(out@));
                            assert(forall|x: u8|
                                out@.contains(x) <==> (prev_out.contains(x) || x == v)) by {
                                assert(forall|x: u8| #[trigger]
                                    prev_out.contains(x) ==> out@.contains(x));
                                assert(out@.contains(v));
                                assert(forall|x: u8| #[trigger]
                                    out@.contains(x) ==> (prev_out.contains(x) || x == v));
                            }
                        }
                    }
                    proof {
                        assert(chunk_vals(chunk_s) == set![v]);
                        assert(forall|x: u8|
                            out@.contains(x) <==> (prev_out.contains(x)
                                || chunk_vals(chunk_s).contains(x)));
                    }
                },
                None => {
                    proof {
                        assert(!chunk_ok(chunk_s));
                        assert(!list_ok_from(s, p as int));
                    }
                    let mut msg = String::from_str("Could not parse GPIO list entry: \"");
                    msg.append(chunk);
                    msg.append("\"");
                    return Err(msg);
                },
            }
        } else {
            proof {
                assert(chunk_s =~= Seq::<char>::empty());
                assert(spec_parse_u8(chunk_s) is None);
                assert(chunk_ok(chunk_s));
                assert(chunk_vals(chunk_s) =~= Set::<u8>::empty());
            }
        }
        proof {
            assert forall|x: u8|
                out@.contains(x) <==> (prev_out.contains(x) || chunk_vals(chunk_s).contains(
                    x,
                )) by {
                if chunk_vals(chunk_s).contains(x) {
                    assert(out@.contains(x));
                }
                if out@.contains(x) && !prev_out.contains(x) {
                    assert(chunk_vals(chunk_s).contains(x));
                }
            }
        }
        if end == len {
            proof {
                assert forall|x: u8|
                    out@.contains(x) <==> list_vals_from(s, 0).contains(x) by {
                    assert(list_vals_from(s, 0).contains(x) <==> (prev_out.contains(x)
                        || list_vals_from(s, p as int).contains(x)));
                }
            }
            return Ok(out);
        }
        proof {
            assert forall|x: u8|
                list_vals_from(s, 0).contains(x) <==> (out@.contains(x) || list_vals_from(
                    s,
                    end + 1,
                ).contains(x)) by {
                assert(list_vals_from(s, 0).contains(x) <==> (prev_out.contains(x)
                    || list_vals_from(s, p as int).contains(x)));
                assert(list_vals_from(s, p as int).contains(x) <==> (chunk_vals(
                    chunk_s,
                ).contains(x) || list_vals_from(s, end + 1).contains(x)));
            }
        }
        p = end + 1;
        proof {
            assert forall|x: u8|
                #![auto]
                list_vals_from(s, 0).contains(x) <==> (out@.contains(x) || list_vals_from(
                    s,
                    p as int,
                ).contains(x)) by {
                assert(p == end + 1);
                assert(list_vals_from(s, 0).contains(x) <==> (out@.contains(x)
                    || list_vals_from(s, end + 1).contains(x)));
            }
            assert(vals_inv(s, out@, p as int));
        }
    }
}

} // verus!
