use vstd::prelude::*;

verus! {

/// The SDP attribute text that would flip the DTLS role.
pub open spec fn setup_active_text() -> Seq<char> {
    "a=setup:active"@
}

/// The replacement that keeps this unit in the passive DTLS role.
pub open spec fn setup_passive_text() -> Seq<char> {
    "a=setup:passive"@
}

/// `s` with every (leftmost, non-overlapping) occurrence of
/// "a=setup:active" replaced by "a=setup:passive" and everything else kept.
pub open spec fn replace_setup(s: Seq<char>) -> Seq<char>
    decreases s.len(),
{
    if s.len() == 0 {
        s
    } else if s.len() >= 14 && s.subrange(0, 14) == setup_active_text() {
        setup_passive_text() + replace_setup(s.skip(14))
    } else {
        seq![s[0]] + replace_setup(s.skip(1))
    }
}

fn setup_active_at(s: &str, i: usize) -> (r: bool)
    requires
        i < s@.len(),
    ensures
        r == (i + 14 <= s@.len() && s@.subrange(i as int, i as int + 14) == setup_active_text()),
{
    proof {
        reveal_strlit("a=setup:active");
    }
    let n = s.unicode_len();
    if n - i < 14 {
        return false;
    }
    let pat = "a=setup:active";
    let mut k: usize = 0;
    let mut ok = true;
    while k < 14
        invariant
            n == s@.len(),
            i + 14 <= n,
            pat@ == setup_active_text(),
            pat@.len() == 14,
            0 <= k <= 14,
            ok == (forall|j: int| 0 <= j < k ==> s@[i + j] == #[trigger] pat@[j]),
        decreases 14 - k,
    {
        let c = s.get_char(i + k);
        let p = pat.get_char(k);
        if c != p {
            ok = false;
        }
        k = k + 1;
    }
    proof {
        if ok {
            assert(s@.subrange(i as int, i as int + 14) =~= setup_active_text());
        } else {
            let j = choose|j: int| 0 <= j < 14 && s@[i + j] != pat@[j];
            assert(s@.subrange(i as int, i as int + 14)[j] != setup_active_text()[j]);
        }
    }
    ok
}

/// Rewrites every "a=setup:active" attribute of an SDP text to
/// "a=setup:passive", leaving all other characters unchanged, so that the
/// unit stays in the passive DTLS role when the remote end offered actpass.
pub fn rewrite_setup_active(sdp: &str) -> (r: String)
    ensures
        r@ == replace_setup(sdp@),
{
    let n = sdp.unicode_len();
    let mut out = String::new();
    let mut i: usize = 0;
    proof {
        assert(sdp@.skip(0) =~= sdp@);
        assert(out@ + replace_setup(sdp@) =~= replace_setup(sdp@));
    }
    while i < n
        invariant
            n == sdp@.len(),
            0 <= i <= n,
            replace_setup(sdp@) == out@ + replace_setup(sdp@.skip(i as int)),
        decreases n - i,
    {
        let ghost rest = sdp@.skip(i as int);
        if setup_active_at(sdp, i) {
            out.append("a=setup:passive");
            proof {
                reveal_strlit("a=setup:passive");
                assert(rest.len() >= 14);
                assert(rest.subrange(0, 14) =~= sdp@.subrange(i as int, i as int + 14));
                assert(replace_setup(rest) == setup_passive_text() + replace_setup(rest.skip(14)));
                assert(rest.skip(14) =~= sdp@.skip(i as int + 14));
            }
            i = i + 14;
        } else {
            let piece = sdp.substring_char(i, i + 1);
            out.append(piece);
            proof {
                if rest.len() >= 14 {
                    assert(rest.subrange(0, 14) =~= sdp@.subrange(i as int, i as int + 14));
                }
                assert(replace_setup(rest) == seq![rest[0]] + replace_setup(rest.skip(1)));
                assert(piece@ =~= seq![rest[0]]);
                assert(rest.skip(1) =~= sdp@.skip(i as int + 1));
            }
            i = i + 1;
        }
    }
    proof {
        assert(sdp@.skip(n as int) =~= Seq::<char>::empty());
        assert(out@ =~= replace_setup(sdp@));
    }
    out
}

} // verus!
