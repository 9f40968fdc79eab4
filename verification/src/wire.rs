//! The handshake's wire format. One message matters in this core: the policy
//! specification, sent broker to target exactly once. A frame is the tag
//! byte, the length-prefixed profile text, and the length-prefixed key/value
//! parameter table; every length is four big-endian bytes. A frame larger
//! than `MAX_MESSAGE_SIZE` is unsupported and is rejected at encoding time,
//! never truncated.

use vstd::prelude::*;

use crate::MAX_MESSAGE_SIZE;
use crate::encoding::be32_value;
use crate::encoding::decode_be32;
use crate::encoding::encode_be32;
use crate::encoding::lemma_be32_extensional;
use crate::encoding::lemma_be32_round_trip;
use crate::encoding::spec_be32;
use crate::error::SandboxError;
use crate::policy::Policy;

verus! {

/// Tag byte that opens a policy-specification frame.
pub const POLICY_TAG: u8 = 0x50;

/// The bytes one parameter-table entry contributes to a frame.
pub open spec fn spec_param_bytes(p: (Seq<u8>, Seq<u8>)) -> Seq<u8> {
    spec_be32(p.0.len() as u32) + p.0 + spec_be32(p.1.len() as u32) + p.1
}

/// The bytes a parameter table contributes to a frame, in table order.
pub open spec fn spec_params_frame(params: Seq<(Seq<u8>, Seq<u8>)>) -> Seq<u8>
    decreases params.len(),
{
    if params.len() == 0 {
        Seq::empty()
    } else {
        spec_param_bytes(params.first()) + spec_params_frame(params.drop_first())
    }
}

/// The frame that carries a policy: tag, length-prefixed profile,
/// entry count, then the parameter table.
pub open spec fn spec_policy_frame(profile: Seq<u8>, params: Seq<(Seq<u8>, Seq<u8>)>) -> Seq<u8> {
    seq![POLICY_TAG] + spec_be32(profile.len() as u32) + profile + spec_be32(params.len() as u32)
        + spec_params_frame(params)
}

/// A sequence of byte vectors pairs, read through their views.
pub open spec fn params_view(s: Seq<(Vec<u8>, Vec<u8>)>) -> Seq<(Seq<u8>, Seq<u8>)> {
    Seq::new(s.len(), |i: int| (s[i].0@, s[i].1@))
}

/// Parameter-table framing distributes over concatenation.
pub proof fn lemma_params_frame_concat(a: Seq<(Seq<u8>, Seq<u8>)>, b: Seq<(Seq<u8>, Seq<u8>)>)
    ensures
        spec_params_frame(a + b) == spec_params_frame(a) + spec_params_frame(b),
    decreases a.len(),
{
    if a.len() == 0 {
        assert(a + b =~= b);
        assert(spec_params_frame(a) =~= Seq::<u8>::empty());
        assert(spec_params_frame(a) + spec_params_frame(b) =~= spec_params_frame(b));
    } else {
        lemma_params_frame_concat(a.drop_first(), b);
        assert((a + b).len() > 0);
        assert((a + b).first() == a.first());
        assert((a + b).drop_first() =~= a.drop_first() + b);
        assert(spec_params_frame(a + b) =~= spec_params_frame(a) + spec_params_frame(b));
    }
}

/// Appending one entry appends its bytes.
pub proof fn lemma_params_frame_push(s: Seq<(Seq<u8>, Seq<u8>)>, x: (Seq<u8>, Seq<u8>))
    ensures
        spec_params_frame(s.push(x)) == spec_params_frame(s) + spec_param_bytes(x),
{
    assert(s.push(x) =~= s + seq![x]);
    lemma_params_frame_concat(s, seq![x]);
    assert(seq![x].first() == x);
    assert(seq![x].drop_first() =~= Seq::<(Seq<u8>, Seq<u8>)>::empty());
    assert(spec_params_frame(Seq::<(Seq<u8>, Seq<u8>)>::empty()) =~= Seq::<u8>::empty());
    assert(spec_params_frame(seq![x]) =~= spec_param_bytes(x));
}

/// The table's bytes split at any entry boundary.
pub proof fn lemma_params_frame_split(s: Seq<(Seq<u8>, Seq<u8>)>, j: int)
    requires
        0 <= j <= s.len(),
    ensures
        spec_params_frame(s) == spec_params_frame(s.take(j)) + spec_params_frame(s.skip(j)),
{
    assert(s =~= s.take(j) + s.skip(j));
    lemma_params_frame_concat(s.take(j), s.skip(j));
}

/// The table's bytes at entry `j` start with that entry's bytes.
pub proof fn lemma_params_frame_skip_step(s: Seq<(Seq<u8>, Seq<u8>)>, j: int)
    requires
        0 <= j < s.len(),
    ensures
        spec_params_frame(s.skip(j)) == spec_param_bytes(s[j]) + spec_params_frame(s.skip(j + 1)),
{
    assert(s.skip(j).len() > 0);
    assert(s.skip(j).first() == s[j]);
    assert(s.skip(j).drop_first() =~= s.skip(j + 1));
}

/// A frame's length: tag, two length fields, profile, table.
pub proof fn lemma_policy_frame_len(profile: Seq<u8>, params: Seq<(Seq<u8>, Seq<u8>)>)
    ensures
        spec_policy_frame(profile, params).len() == 9 + profile.len() + spec_params_frame(
            params,
        ).len(),
{
    assert(seq![POLICY_TAG].len() == 1);
    assert(spec_be32(profile.len() as u32).len() == 4);
    assert(spec_be32(params.len() as u32).len() == 4);
}

/// Every entry costs at least its two length fields.
pub proof fn lemma_params_frame_len_ge(s: Seq<(Seq<u8>, Seq<u8>)>)
    ensures
        spec_params_frame(s).len() >= 8 * s.len(),
    decreases s.len(),
{
    if s.len() > 0 {
        lemma_params_frame_len_ge(s.drop_first());
    }
}

/// Appends a byte vector to the end of another.
pub(crate) fn append_bytes(out: &mut Vec<u8>, src: &Vec<u8>)
    ensures
        final(out)@ == old(out)@ + src@,
{
    let mut i: usize = 0;
    while i < src.len()
        invariant
            i <= src@.len(),
            out@ == old(out)@ + src@.subrange(0, i as int),
        decreases src@.len() - i,
    {
        out.push(src[i]);
        i = i + 1;
        proof {
            assert(out@ =~= old(out)@ + src@.subrange(0, i as int));
        }
    }
    proof {
        assert(out@ =~= old(out)@ + src@);
    }
}

/// Copies the bytes of `s` between `from` and `to`.
pub(crate) fn copy_range(s: &Vec<u8>, from: usize, to: usize) -> (r: Vec<u8>)
    requires
        from <= to <= s@.len(),
    ensures
        r@ == s@.subrange(from as int, to as int),
{
    let mut r: Vec<u8> = Vec::new();
    let mut i: usize = from;
    while i < to
        invariant
            from <= i <= to <= s@.len(),
            r@ == s@.subrange(from as int, i as int),
        decreases to - i,
    {
        r.push(s[i]);
        i = i + 1;
        proof {
            assert(r@ =~= s@.subrange(from as int, i as int));
        }
    }
    r
}

/// Encodes the policy-specification frame for a policy, or rejects a policy
/// whose frame would exceed the wire-size bound: exactly the oversized
/// frames fail, and they fail loudly rather than being truncated.
pub fn encode_policy_frame(p: &Policy) -> (r: Result<Vec<u8>, SandboxError>)
    ensures
        r is Ok <==> spec_policy_frame(p.spec_profile(), p.spec_params()).len()
            <= MAX_MESSAGE_SIZE,
        r matches Ok(f) ==> f@ == spec_policy_frame(p.spec_profile(), p.spec_params()),
        r is Err ==> r == Result::<Vec<u8>, SandboxError>::Err(SandboxError::PolicyTooLarge),
{
    let ghost pf = p.spec_profile();
    let ghost ps = p.spec_params();
    let ghost whole = spec_policy_frame(pf, ps);
    let profile = p.profile();
    let params = p.parameters();
    if profile.len() > MAX_MESSAGE_SIZE {
        proof {
            assert(whole.len() >= pf.len());
        }
        return Err(SandboxError::PolicyTooLarge);
    }
    if params.len() > MAX_MESSAGE_SIZE {
        proof {
            lemma_params_frame_len_ge(ps);
            assert(whole.len() >= spec_params_frame(ps).len());
        }
        return Err(SandboxError::PolicyTooLarge);
    }
    let mut out: Vec<u8> = Vec::new();
    out.push(POLICY_TAG);
    encode_be32(profile.len() as u32, &mut out);
    append_bytes(&mut out, profile);
    encode_be32(params.len() as u32, &mut out);
    proof {
        assert(out@ =~= seq![POLICY_TAG] + spec_be32(pf.len() as u32) + pf + spec_be32(
            ps.len() as u32,
        ));
    }
    if out.len() > MAX_MESSAGE_SIZE {
        proof {
            lemma_policy_frame_len(pf, ps);
            assert(whole.len() >= out@.len());
        }
        return Err(SandboxError::PolicyTooLarge);
    }
    let mut i: usize = 0;
    while i < params.len()
        invariant
            i <= ps.len(),
            params@.len() == ps.len(),
            forall|m: int|
                0 <= m < ps.len() ==> (#[trigger] params@[m]).0@ == ps[m].0 && params@[m].1@
                    == ps[m].1,
            out@ =~= seq![POLICY_TAG] + spec_be32(pf.len() as u32) + pf + spec_be32(
                ps.len() as u32,
            ) + spec_params_frame(ps.take(i as int)),
            out@.len() <= MAX_MESSAGE_SIZE,
            pf == p.spec_profile(),
            ps == p.spec_params(),
            whole == spec_policy_frame(pf, ps),
        decreases ps.len() - i,
    {
        let klen = params[i].0.len();
        let vlen = params[i].1.len();
        proof {
            lemma_params_frame_split(ps, i as int);
            lemma_params_frame_skip_step(ps, i as int);
        }
        if klen > MAX_MESSAGE_SIZE || vlen > MAX_MESSAGE_SIZE {
            proof {
                lemma_policy_frame_len(pf, ps);
                assert(spec_params_frame(ps).len() == spec_params_frame(ps.take(i as int)).len()
                    + spec_param_bytes(ps[i as int]).len() + spec_params_frame(
                    ps.skip(i as int + 1),
                ).len());
                assert(spec_param_bytes(ps[i as int]).len() >= ps[i as int].0.len() + ps[
                    i as int
                ].1.len());
                assert(whole.len() > MAX_MESSAGE_SIZE);
            }
            return Err(SandboxError::PolicyTooLarge);
        }
        encode_be32(klen as u32, &mut out);
        append_bytes(&mut out, &params[i].0);
        encode_be32(vlen as u32, &mut out);
        append_bytes(&mut out, &params[i].1);
        i = i + 1;
        proof {
            lemma_params_frame_push(ps.take(i - 1 as int), ps[i - 1]);
            assert(ps.take(i as int) =~= ps.take(i - 1 as int).push(ps[i - 1]));
            assert(out@ =~= seq![POLICY_TAG] + spec_be32(pf.len() as u32) + pf + spec_be32(
                ps.len() as u32,
            ) + spec_params_frame(ps.take(i as int)));
        }
        if out.len() > MAX_MESSAGE_SIZE {
            proof {
                lemma_policy_frame_len(pf, ps);
                lemma_params_frame_split(ps, i as int);
                assert(spec_params_frame(ps).len() >= spec_params_frame(ps.take(i as int)).len());
                assert(whole.len() >= out@.len());
            }
            return Err(SandboxError::PolicyTooLarge);
        }
    }
    proof {
        assert(ps.take(ps.len() as int) =~= ps);
        assert(out@ =~= whole);
    }
    Ok(out)
}

/// Where entry `j`'s bytes lie in a frame: at the end of the frame's prefix
/// through entry `j - 1`, as its two length-prefixed fields, followed by the
/// remaining entries.
#[verifier::rlimit(100)]
proof fn lemma_frame_entry_window(s: Seq<u8>, pf: Seq<u8>, ps: Seq<(Seq<u8>, Seq<u8>)>, j: int)
    requires
        s == spec_policy_frame(pf, ps),
        0 <= j < ps.len(),
    ensures
        ({
            let pos = 9 + pf.len() + spec_params_frame(ps.take(j)).len();
            let kl = ps[j].0.len() as int;
            let vl = ps[j].1.len() as int;
            &&& s.len() - pos >= 8 + kl + vl
            &&& s.subrange(pos as int, pos as int + 4) == spec_be32(ps[j].0.len() as u32)
            &&& s.subrange(pos as int + 4, pos as int + 4 + kl) == ps[j].0
            &&& s.subrange(pos as int + 4 + kl, pos as int + 8 + kl) == spec_be32(
                ps[j].1.len() as u32,
            )
            &&& s.subrange(pos as int + 8 + kl, pos as int + 8 + kl + vl) == ps[j].1
            &&& pos + 8 + kl + vl == 9 + pf.len() + spec_params_frame(ps.take(j + 1)).len()
        }),
{
    lemma_policy_frame_len(pf, ps);
    lemma_params_frame_split(ps, j);
    lemma_params_frame_skip_step(ps, j);
    lemma_params_frame_push(ps.take(j), ps[j]);
    assert(ps.take(j + 1) =~= ps.take(j).push(ps[j]));
    let pos = 9 + pf.len() + spec_params_frame(ps.take(j)).len();
    let kl = ps[j].0.len() as int;
    let vl = ps[j].1.len() as int;
    assert(s.subrange(pos as int, pos as int + 4) =~= spec_be32(ps[j].0.len() as u32));
    assert(s.subrange(pos as int + 4, pos as int + 4 + kl) =~= ps[j].0);
    assert(s.subrange(pos as int + 4 + kl, pos as int + 8 + kl) =~= spec_be32(
        ps[j].1.len() as u32,
    ));
    assert(s.subrange(pos as int + 8 + kl, pos as int + 8 + kl + vl) =~= ps[j].1);
}

/// Every policy the builder renders fits the wire bound: its profile is one
/// of the two preset texts and its parameter table is empty, so sending a
/// built policy is always supported.
pub proof fn lemma_built_policy_frame_fits(access: crate::policy::Access)
    ensures
        spec_policy_frame(
            crate::policy::profile_bytes(access),
            Seq::<(Seq<u8>, Seq<u8>)>::empty(),
        ).len() <= MAX_MESSAGE_SIZE,
{
    reveal_strlit("(version 1)\n(allow default)\n");
    reveal_strlit("(version 1)\n(deny default)\n");
    lemma_policy_frame_len(
        crate::policy::profile_bytes(access),
        Seq::<(Seq<u8>, Seq<u8>)>::empty(),
    );
    assert(spec_params_frame(Seq::<(Seq<u8>, Seq<u8>)>::empty()) =~= Seq::<u8>::empty());
    assert(crate::policy::profile_bytes(access).len() <= 28);
}

/// Entries beyond an equal prefix coincide, one by one: the step of the
/// injectivity proof below.
proof fn lemma_frame_entries_equal(
    s: Seq<u8>,
    pf: Seq<u8>,
    ps1: Seq<(Seq<u8>, Seq<u8>)>,
    ps2: Seq<(Seq<u8>, Seq<u8>)>,
    j: int,
)
    requires
        s == spec_policy_frame(pf, ps1),
        s == spec_policy_frame(pf, ps2),
        s.len() <= MAX_MESSAGE_SIZE,
        ps1.len() == ps2.len(),
        0 <= j <= ps1.len(),
        ps1.take(j) == ps2.take(j),
    ensures
        ps1 == ps2,
    decreases ps1.len() - j,
{
    if j == ps1.len() {
        assert(ps1.take(j) =~= ps1);
        assert(ps2.take(j) =~= ps2);
    } else {
        lemma_frame_entry_window(s, pf, ps1, j);
        lemma_frame_entry_window(s, pf, ps2, j);
        let pos = 9 + pf.len() + spec_params_frame(ps1.take(j)).len();
        let kl1 = ps1[j].0.len() as int;
        let kl2 = ps2[j].0.len() as int;
        assert(spec_be32(ps1[j].0.len() as u32) == spec_be32(ps2[j].0.len() as u32));
        lemma_be32_round_trip(ps1[j].0.len() as u32);
        lemma_be32_round_trip(ps2[j].0.len() as u32);
        assert(kl1 == kl2);
        assert(ps1[j].0 == ps2[j].0);
        assert(spec_be32(ps1[j].1.len() as u32) == spec_be32(ps2[j].1.len() as u32));
        lemma_be32_round_trip(ps1[j].1.len() as u32);
        lemma_be32_round_trip(ps2[j].1.len() as u32);
        assert(ps1[j].1.len() == ps2[j].1.len());
        assert(ps1[j].1 == ps2[j].1);
        assert(ps1[j] == ps2[j]);
        assert(ps1.take(j + 1) =~= ps2.take(j + 1));
        lemma_frame_entries_equal(s, pf, ps1, ps2, j + 1);
    }
}

/// Framing is injective on the policies whose frames fit the wire bound: one
/// frame is the frame of exactly one policy, so what the target reads off
/// the wire is what the broker put on it.
pub proof fn lemma_policy_frame_injective(
    pf1: Seq<u8>,
    ps1: Seq<(Seq<u8>, Seq<u8>)>,
    pf2: Seq<u8>,
    ps2: Seq<(Seq<u8>, Seq<u8>)>,
)
    requires
        spec_policy_frame(pf1, ps1) == spec_policy_frame(pf2, ps2),
        spec_policy_frame(pf1, ps1).len() <= MAX_MESSAGE_SIZE,
    ensures
        pf1 == pf2,
        ps1 == ps2,
{
    let s = spec_policy_frame(pf1, ps1);
    lemma_policy_frame_len(pf1, ps1);
    lemma_policy_frame_len(pf2, ps2);
    assert(s.subrange(1, 5) =~= spec_be32(pf1.len() as u32));
    assert(s.subrange(1, 5) =~= spec_be32(pf2.len() as u32));
    lemma_be32_round_trip(pf1.len() as u32);
    lemma_be32_round_trip(pf2.len() as u32);
    lemma_params_frame_len_ge(ps1);
    lemma_params_frame_len_ge(ps2);
    assert(pf1.len() == pf2.len());
    assert(s.subrange(5, 5 + pf1.len() as int) =~= pf1);
    assert(s.subrange(5, 5 + pf2.len() as int) =~= pf2);
    assert(pf1 == pf2);
    assert(s.subrange(5 + pf1.len() as int, 9 + pf1.len() as int) =~= spec_be32(
        ps1.len() as u32,
    ));
    assert(s.subrange(5 + pf2.len() as int, 9 + pf2.len() as int) =~= spec_be32(
        ps2.len() as u32,
    ));
    lemma_be32_round_trip(ps1.len() as u32);
    lemma_be32_round_trip(ps2.len() as u32);
    assert(ps1.len() == ps2.len());
    assert(ps1.take(0) =~= ps2.take(0));
    lemma_frame_entries_equal(s, pf1, ps1, ps2, 0);
}

/// Decodes a policy-specification frame. Exactly the well-formed frames (of
/// wire-admissible size) are accepted, and an accepted frame is accepted as
/// the one policy it is the frame of; everything else is a protocol
/// violation.
#[verifier::rlimit(100)]
pub fn decode_policy_frame(s: &Vec<u8>) -> (r: Result<Policy, SandboxError>)
    ensures
        r matches Ok(p) ==> s@ == spec_policy_frame(p.spec_profile(), p.spec_params()),
        forall|pf: Seq<u8>, ps: Seq<(Seq<u8>, Seq<u8>)>|
            (s@ == #[trigger] spec_policy_frame(pf, ps) && s@.len() <= MAX_MESSAGE_SIZE) ==> (
            r matches Ok(p) && p.spec_profile() == pf && p.spec_params() == ps),
        r is Err ==> r == Result::<Policy, SandboxError>::Err(SandboxError::ProtocolViolation),
{
    let len = s.len();
    if len < 9 {
        proof {
            assert forall|pf: Seq<u8>, ps: Seq<(Seq<u8>, Seq<u8>)>|
                s@ == #[trigger] spec_policy_frame(pf, ps) && s@.len()
                    <= MAX_MESSAGE_SIZE implies false by {
                lemma_policy_frame_len(pf, ps);
            }
        }
        return Err(SandboxError::ProtocolViolation);
    }
    if s[0] != POLICY_TAG {
        proof {
            assert forall|pf: Seq<u8>, ps: Seq<(Seq<u8>, Seq<u8>)>|
                s@ == #[trigger] spec_policy_frame(pf, ps) && s@.len()
                    <= MAX_MESSAGE_SIZE implies false by {
                assert(spec_policy_frame(pf, ps)[0] == POLICY_TAG);
            }
        }
        return Err(SandboxError::ProtocolViolation);
    }
    let plen = decode_be32(s, 1) as usize;
    proof {
        assert forall|pf: Seq<u8>, ps: Seq<(Seq<u8>, Seq<u8>)>|
            (s@ == #[trigger] spec_policy_frame(pf, ps) && s@.len()
                <= MAX_MESSAGE_SIZE) implies (plen == pf.len() && s@.len() >= 9 + pf.len()) by {
            lemma_policy_frame_len(pf, ps);
            assert(s@.subrange(1, 5) =~= spec_be32(pf.len() as u32));
            lemma_be32_round_trip(pf.len() as u32);
        }
    }
    if plen > len - 9 {
        return Err(SandboxError::ProtocolViolation);
    }
    let profile = copy_range(s, 5, 5 + plen);
    let count = decode_be32(s, 5 + plen) as usize;
    let mut pos: usize = 9 + plen;
    proof {
        assert(s@.subrange(1, 5) =~= spec_be32(plen as u32)) by {
            lemma_be32_extensional(s@.subrange(1, 5));
        }
        assert(s@.subrange(5 + plen as int, 9 + plen as int) =~= spec_be32(count as u32)) by {
            lemma_be32_extensional(s@.subrange(5 + plen as int, 9 + plen as int));
        }
        assert(s@.subrange(0, pos as int) =~= seq![POLICY_TAG] + spec_be32(plen as u32) + profile@
            + spec_be32(count as u32));
        assert(spec_params_frame(params_view(Seq::<(Vec<u8>, Vec<u8>)>::empty())) =~= Seq::<
            u8,
        >::empty()) by {
            assert(params_view(Seq::<(Vec<u8>, Vec<u8>)>::empty()) =~= Seq::<
                (Seq<u8>, Seq<u8>),
            >::empty());
        }
        assert forall|pf: Seq<u8>, ps: Seq<(Seq<u8>, Seq<u8>)>|
            (s@ == #[trigger] spec_policy_frame(pf, ps) && s@.len() <= MAX_MESSAGE_SIZE) implies (
        plen == pf.len() && profile@ == pf && count == ps.len() && pos == 9 + pf.len()
            + spec_params_frame(ps.take(0)).len()) by {
            lemma_policy_frame_len(pf, ps);
            assert(s@.subrange(5, 5 + pf.len() as int) =~= pf);
            lemma_params_frame_len_ge(ps);
            assert(s@.subrange(5 + pf.len() as int, 9 + pf.len() as int) =~= spec_be32(
                ps.len() as u32,
            ));
            lemma_be32_round_trip(ps.len() as u32);
            assert(ps.take(0) =~= Seq::<(Seq<u8>, Seq<u8>)>::empty());
        }
    }
    let mut params: Vec<(Vec<u8>, Vec<u8>)> = Vec::new();
    let mut j: usize = 0;
    while j < count
        invariant
            j <= count,
            pos <= len,
            len == s@.len(),
            params@.len() == j,
            s@.subrange(0, pos as int) =~= seq![POLICY_TAG] + spec_be32(plen as u32) + profile@
                + spec_be32(count as u32) + spec_params_frame(params_view(params@)),
            forall|pf: Seq<u8>, ps: Seq<(Seq<u8>, Seq<u8>)>|
                (s@ == #[trigger] spec_policy_frame(pf, ps) && s@.len() <= MAX_MESSAGE_SIZE) ==> (
                plen == pf.len() && profile@ == pf && count == ps.len() && params_view(params@)
                    == ps.take(j as int) && pos == 9 + pf.len() + spec_params_frame(
                    ps.take(j as int),
                ).len()),
        decreases count - j,
    {
        proof {
            assert forall|pf: Seq<u8>, ps: Seq<(Seq<u8>, Seq<u8>)>|
                (s@ == #[trigger] spec_policy_frame(pf, ps) && s@.len() <= MAX_MESSAGE_SIZE) implies ({
                let kl = ps[j as int].0.len() as int;
                let vl = ps[j as int].1.len() as int;
                &&& s@.len() - pos >= 8 + kl + vl
                &&& be32_value(s@.subrange(pos as int, pos as int + 4)) == ps[j as int].0.len()
                &&& s@.subrange(pos as int + 4, pos as int + 4 + kl) == ps[j as int].0
                &&& be32_value(s@.subrange(pos as int + 4 + kl, pos as int + 8 + kl)) == ps[
                    j as int
                ].1.len()
                &&& s@.subrange(pos as int + 8 + kl, pos as int + 8 + kl + vl) == ps[j as int].1
                &&& pos + 8 + kl + vl == 9 + pf.len() + spec_params_frame(
                    ps.take(j as int + 1),
                ).len()
            }) by {
                lemma_frame_entry_window(s@, pf, ps, j as int);
                lemma_be32_round_trip(ps[j as int].0.len() as u32);
                lemma_be32_round_trip(ps[j as int].1.len() as u32);
            }
        }
        if len - pos < 4 {
            return Err(SandboxError::ProtocolViolation);
        }
        let klen = decode_be32(s, pos) as usize;
        if klen > len - (pos + 4) {
            return Err(SandboxError::ProtocolViolation);
        }
        let k = copy_range(s, pos + 4, pos + 4 + klen);
        let kend = pos + 4 + klen;
        if len - kend < 4 {
            return Err(SandboxError::ProtocolViolation);
        }
        let vlen = decode_be32(s, kend) as usize;
        if vlen > len - (kend + 4) {
            return Err(SandboxError::ProtocolViolation);
        }
        let v = copy_range(s, kend + 4, kend + 4 + vlen);
        let ghost old_pos = pos as int;
        let ghost old_params = params@;
        pos = kend + 4 + vlen;
        params.push((k, v));
        j = j + 1;
        proof {
            assert(params_view(params@) =~= params_view(old_params).push((k@, v@)));
            lemma_params_frame_push(params_view(old_params), (k@, v@));
            assert(spec_param_bytes((k@, v@)) == spec_be32(klen as u32) + k@ + spec_be32(
                vlen as u32,
            ) + v@);
            assert(s@.subrange(old_pos, old_pos + 4) =~= spec_be32(klen as u32)) by {
                lemma_be32_extensional(s@.subrange(old_pos, old_pos + 4));
            }
            assert(s@.subrange(old_pos + 4 + klen as int, old_pos + 8 + klen as int) =~= spec_be32(
                vlen as u32,
            )) by {
                lemma_be32_extensional(
                    s@.subrange(old_pos + 4 + klen as int, old_pos + 8 + klen as int),
                );
            }
            assert(s@.subrange(old_pos, pos as int) =~= spec_param_bytes((k@, v@)));
            assert(s@.subrange(0, pos as int) =~= s@.subrange(0, old_pos) + s@.subrange(
                old_pos,
                pos as int,
            ));
            assert(s@.subrange(0, pos as int) =~= seq![POLICY_TAG] + spec_be32(plen as u32)
                + profile@ + spec_be32(count as u32) + spec_params_frame(params_view(params@)));
            assert forall|pf: Seq<u8>, ps: Seq<(Seq<u8>, Seq<u8>)>|
                (s@ == #[trigger] spec_policy_frame(pf, ps) && s@.len() <= MAX_MESSAGE_SIZE) implies (
            params_view(params@) == ps.take(j as int) && pos == 9 + pf.len() + spec_params_frame(
                ps.take(j as int),
            ).len()) by {
                assert(params_view(old_params) == ps.take(j as int - 1));
                assert((k@, v@) == ps[j as int - 1]);
                assert(ps.take(j as int) =~= ps.take(j as int - 1).push(ps[j as int - 1]));
                lemma_params_frame_push(ps.take(j as int - 1), ps[j as int - 1]);
                assert(params_view(params@) =~= ps.take(j as int));
            }
        }
    }
    if pos != len {
        proof {
            assert forall|pf: Seq<u8>, ps: Seq<(Seq<u8>, Seq<u8>)>|
                (s@ == #[trigger] spec_policy_frame(pf, ps) && s@.len()
                    <= MAX_MESSAGE_SIZE) implies false by {
                lemma_policy_frame_len(pf, ps);
                assert(ps.take(ps.len() as int) =~= ps);
            }
        }
        return Err(SandboxError::ProtocolViolation);
    }
    let ghost decoded_profile = profile@;
    let ghost decoded_params = params_view(params@);
    let p = Policy::from_parts(profile, params);
    proof {
        assert(p.spec_params() =~= decoded_params);
        assert(s@.subrange(0, len as int) =~= s@);
        assert(s@ == spec_policy_frame(p.spec_profile(), p.spec_params()));
        assert forall|pf: Seq<u8>, ps: Seq<(Seq<u8>, Seq<u8>)>|
            (s@ == #[trigger] spec_policy_frame(pf, ps) && s@.len() <= MAX_MESSAGE_SIZE) implies (
        p.spec_profile() == pf && p.spec_params() == ps) by {
            assert(ps.take(ps.len() as int) =~= ps);
        }
    }
    Ok(p)
}

} // verus!
