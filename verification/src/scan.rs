//! Candidate lists for probing a bus: Damiao model hints and feedback ids,
//! and the default feedback ids of the vendors.
use crate::text::{ascii_lower_seq, eq_ignore_ascii_case};
use vstd::prelude::*;

verus! {

/// The Damiao model names tried when scanning, in order.
pub open spec fn damiao_scan_model_hint_list() -> Seq<Seq<char>> {
    seq!["4340P"@, "4340"@, "4310"@, "4310P"@, "3507"@, "6006"@, "8006"@, "8009"@, "10010L"@, "10010"@, "H3510"@, "G6215"@, "H6220"@, "JH11"@, "6248P"@]
}

/// Whether two names are equal ignoring ASCII case.
pub open spec fn same_ignoring_case(a: Seq<char>, b: Seq<char>) -> bool {
    ascii_lower_seq(a) == ascii_lower_seq(b)
}

/// `s` without the names equal, ignoring case, to an earlier one.
pub open spec fn dedup_ignoring_case(s: Seq<Seq<char>>) -> Seq<Seq<char>>
    decreases s.len(),
{
    if s.len() == 0 {
        s
    } else {
        let d = dedup_ignoring_case(s.drop_last());
        if exists|j: int| 0 <= j < d.len() && same_ignoring_case(#[trigger] d[j], s.last()) {
            d
        } else {
            d.push(s.last())
        }
    }
}

/// `s` without the values equal to an earlier one.
pub open spec fn dedup_keep_first(s: Seq<u16>) -> Seq<u16>
    decreases s.len(),
{
    if s.len() == 0 {
        s
    } else {
        let d = dedup_keep_first(s.drop_last());
        if d.contains(s.last()) {
            d
        } else {
            d.push(s.last())
        }
    }
}

/// The Damiao model hints to scan with, each once (ignoring case), in
/// their listed order.
pub fn build_scan_model_hints() -> (r: Vec<String>)
    ensures
        r@.len() == dedup_ignoring_case(damiao_scan_model_hint_list()).len(),
        forall|i: int|
            0 <= i < r@.len() ==> (#[trigger] r@[i])@ == dedup_ignoring_case(
                damiao_scan_model_hint_list(),
            )[i],
{
    let hints: [&str; 15] = ["4340P", "4340", "4310", "4310P", "3507", "6006", "8006", "8009", "10010L", "10010", "H3510", "G6215", "H6220", "JH11", "6248P"];
    let ghost list = damiao_scan_model_hint_list();
    proof {
        assert(hints@[0]@ == list[0]);
        assert(hints@[1]@ == list[1]);
        assert(hints@[2]@ == list[2]);
        assert(hints@[3]@ == list[3]);
        assert(hints@[4]@ == list[4]);
        assert(hints@[5]@ == list[5]);
        assert(hints@[6]@ == list[6]);
        assert(hints@[7]@ == list[7]);
        assert(hints@[8]@ == list[8]);
        assert(hints@[9]@ == list[9]);
        assert(hints@[10]@ == list[10]);
        assert(hints@[11]@ == list[11]);
        assert(hints@[12]@ == list[12]);
        assert(hints@[13]@ == list[13]);
        assert(hints@[14]@ == list[14]);
    }
    let mut out: Vec<String> = Vec::new();
    let mut i: usize = 0;
    while i < hints.len()
        invariant
            i <= hints@.len() == list.len(),
            forall|k: int| 0 <= k < list.len() ==> (#[trigger] hints@[k])@ == list[k],
            out@.len() == dedup_ignoring_case(list.take(i as int)).len(),
            forall|k: int|
                0 <= k < out@.len() ==> (#[trigger] out@[k])@ == dedup_ignoring_case(
                    list.take(i as int),
                )[k],
        decreases hints@.len() - i,
    {
        let m = hints[i];
        let ghost d = dedup_ignoring_case(list.take(i as int));
        assert(list.take(i + 1).drop_last() =~= list.take(i as int));
        assert(list.take(i + 1).last() == m@);
        let mut found = false;
        let mut j: usize = 0;
        while j < out.len()
            invariant
                j <= out@.len() == d.len(),
                forall|k: int| 0 <= k < out@.len() ==> (#[trigger] out@[k])@ == d[k],
                found <==> exists|k: int| 0 <= k < j && same_ignoring_case(#[trigger] d[k], m@),
            decreases out@.len() - j,
        {
            if eq_ignore_ascii_case(out[j].as_str(), m) {
                assert(same_ignoring_case(d[j as int], m@));
                found = true;
            }
            j = j + 1;
        }
        if !found {
            let ghost before = out@;
            out.push(String::from_str(m));
            proof {
                assert forall|k: int| 0 <= k < out@.len() implies (#[trigger] out@[k])@
                    == dedup_ignoring_case(list.take(i + 1))[k] by {
                    if k < before.len() {
                        assert(out@[k] == before[k]);
                    }
                }
            }
        }
        i = i + 1;
    }
    assert(list.take(list.len() as int) =~= list);
    out
}

/// The candidate feedback ids of a Damiao motor, in the order tried:
/// `motor_id + 0x10` (saturating), the configured one, `0x11`, `0x17`, each
/// once.
pub open spec fn scan_feedback_candidates(base_feedback_id: u16, motor_id: u16) -> Seq<u16> {
    let inferred = if motor_id + 0x10 > u16::MAX { u16::MAX } else { (motor_id + 0x10) as u16 };
    seq![inferred, base_feedback_id, 0x0011u16, 0x0017u16]
}

/// The feedback ids to try when scanning for a Damiao motor.
pub fn build_scan_feedback_hints(base_feedback_id: u16, motor_id: u16) -> (r: Vec<u16>)
    ensures
        r@ == dedup_keep_first(scan_feedback_candidates(base_feedback_id, motor_id)),
{
    let inferred = motor_id.saturating_add(0x10);
    let cands: [u16; 4] = [inferred, base_feedback_id, 0x0011, 0x0017];
    let ghost list = scan_feedback_candidates(base_feedback_id, motor_id);
    assert(cands@ =~= list);
    let mut out: Vec<u16> = Vec::new();
    let mut i: usize = 0;
    while i < 4
        invariant
            i <= 4,
            cands@ == list,
            list.len() == 4,
            out@ == dedup_keep_first(list.take(i as int)),
        decreases 4 - i,
    {
        let fid = cands[i];
        assert(list.take(i + 1).drop_last() =~= list.take(i as int));
        let mut found = false;
        let mut j: usize = 0;
        while j < out.len()
            invariant
                j <= out@.len(),
                found <==> exists|k: int| 0 <= k < j && out@[k] == fid,
            decreases out@.len() - j,
        {
            if out[j] == fid {
                found = true;
            }
            j = j + 1;
        }
        if !found {
            out.push(fid);
        }
        i = i + 1;
    }
    assert(list.take(4) =~= list);
    out
}

/// Default feedback id of a Damiao motor: `0x10` plus the low nibble of its
/// id.
pub fn damiao_default_feedback_id(motor_id: u16) -> (r: u16)
    ensures
        r == 0x10 + (motor_id & 0x0F),
{
    assert(motor_id & 0x0Fu16 <= 0x0Fu16) by (bit_vector);
    0x10u16.saturating_add(motor_id & 0x0F)
}

/// Default feedback id of a MyActuator motor: `0x240 + id`, saturating.
pub fn myactuator_feedback_default(motor_id: u16) -> (r: u16)
    ensures
        r == (if 0x240 + motor_id > u16::MAX { u16::MAX as int } else { 0x240 + motor_id }),
{
    0x240u16.saturating_add(motor_id)
}


/// The model hints kept are pairwise distinct ignoring case, and every
/// listed hint is kept or has a kept equal.
pub proof fn law_dedup_ignoring_case(s: Seq<Seq<char>>)
    ensures
        forall|i: int, j: int|
            0 <= i < j < dedup_ignoring_case(s).len() ==> !same_ignoring_case(
                #[trigger] dedup_ignoring_case(s)[i],
                #[trigger] dedup_ignoring_case(s)[j],
            ),
        forall|i: int|
            0 <= i < s.len() ==> exists|j: int|
                0 <= j < dedup_ignoring_case(s).len() && same_ignoring_case(
                    #[trigger] s[i],
                    #[trigger] dedup_ignoring_case(s)[j],
                ),
    decreases s.len(),
{
    if s.len() > 0 {
        let p = s.drop_last();
        law_dedup_ignoring_case(p);
        let d = dedup_ignoring_case(p);
        let r = dedup_ignoring_case(s);
        assert forall|i: int| 0 <= i < s.len() implies exists|j: int|
            0 <= j < r.len() && same_ignoring_case(#[trigger] s[i], #[trigger] r[j]) by {
            if i < s.len() - 1 {
                assert(s[i] == p[i]);
                let j = choose|j: int| 0 <= j < d.len() && same_ignoring_case(p[i], #[trigger] d[j]);
                assert(r[j] == d[j]);
            } else if exists|j: int| 0 <= j < d.len() && same_ignoring_case(#[trigger] d[j], s.last()) {
                let j = choose|j: int| 0 <= j < d.len() && same_ignoring_case(#[trigger] d[j], s.last());
                assert(r[j] == d[j]);
            } else {
                assert(r[d.len() as int] == s.last());
            }
        }
    }
}

/// The feedback ids kept are pairwise distinct, and every candidate is
/// kept.
pub proof fn law_dedup_keep_first(s: Seq<u16>)
    ensures
        forall|i: int, j: int|
            0 <= i < j < dedup_keep_first(s).len() ==> #[trigger] dedup_keep_first(s)[i]
                != #[trigger] dedup_keep_first(s)[j],
        forall|i: int| 0 <= i < s.len() ==> dedup_keep_first(s).contains(#[trigger] s[i]),
    decreases s.len(),
{
    if s.len() > 0 {
        let p = s.drop_last();
        law_dedup_keep_first(p);
        let d = dedup_keep_first(p);
        let r = dedup_keep_first(s);
        assert forall|i: int| 0 <= i < s.len() implies r.contains(#[trigger] s[i]) by {
            if i < s.len() - 1 {
                assert(s[i] == p[i]);
                assert(d.contains(p[i]));
                let j = choose|j: int| 0 <= j < d.len() && d[j] == p[i];
                assert(r[j] == d[j]);
            } else if !d.contains(s.last()) {
                assert(r[d.len() as int] == s.last());
            }
        }
    }
}

} // verus!
