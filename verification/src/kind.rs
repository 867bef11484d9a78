//! The event kind: a closed enumeration of the kinds the feed names,
//! plus an open fallback variant that carries any other kind text
//! verbatim, so that no row is rejected for an unrecognized kind.

use vstd::prelude::*;
use crate::text::bytes_eq;
use crate::text::trim;
use crate::text::trim_spec;

verus! {

/// The kind of an event. Unrecognized kind texts are preserved in
/// `Other`, never rejected.
#[derive(Debug, PartialEq, Eq, Hash)]
pub enum EventKind {
    LeagueChallengeVG,
    LeagueCupVG,
    GoChallenge,
    LeagueCup,
    PreRelease,
    GoCup,
    LeagueChallenge,
    Other(Vec<u8>),
}

/// The mathematical form of an event kind: the `Other` payload as a
/// byte sequence.
pub enum KindView {
    LeagueChallengeVG,
    LeagueCupVG,
    GoChallenge,
    LeagueCup,
    PreRelease,
    GoCup,
    LeagueChallenge,
    Other(Seq<u8>),
}

impl View for EventKind {
    type V = KindView;

    open spec fn view(&self) -> KindView {
        match self {
            EventKind::LeagueChallengeVG => KindView::LeagueChallengeVG,
            EventKind::LeagueCupVG => KindView::LeagueCupVG,
            EventKind::GoChallenge => KindView::GoChallenge,
            EventKind::LeagueCup => KindView::LeagueCup,
            EventKind::PreRelease => KindView::PreRelease,
            EventKind::GoCup => KindView::GoCup,
            EventKind::LeagueChallenge => KindView::LeagueChallenge,
            EventKind::Other(t) => KindView::Other(t@),
        }
    }
}

/// The canonical text of the league-challenge-VG kind.
pub open spec fn text_league_challenge_vg() -> Seq<u8> {
    seq![76u8, 101u8, 97u8, 103u8, 117u8, 101u8, 32u8, 67u8, 104u8, 97u8, 108u8, 108u8, 101u8, 110u8, 103u8, 101u8, 32u8, 86u8, 71u8]
}

/// The canonical text of the league-cup-VG kind.
pub open spec fn text_league_cup_vg() -> Seq<u8> {
    seq![76u8, 101u8, 97u8, 103u8, 117u8, 101u8, 32u8, 67u8, 117u8, 112u8, 32u8, 86u8, 71u8]
}

/// The canonical text of the GO-challenge kind.
pub open spec fn text_go_challenge() -> Seq<u8> {
    seq![71u8, 79u8, 32u8, 67u8, 104u8, 97u8, 108u8, 108u8, 101u8, 110u8, 103u8, 101u8]
}

/// The canonical text of the league-cup kind.
pub open spec fn text_league_cup() -> Seq<u8> {
    seq![76u8, 101u8, 97u8, 103u8, 117u8, 101u8, 32u8, 67u8, 117u8, 112u8]
}

/// The canonical text of the pre-release kind.
pub open spec fn text_pre_release() -> Seq<u8> {
    seq![80u8, 114u8, 101u8, 32u8, 82u8, 101u8, 108u8, 101u8, 97u8, 115u8, 101u8]
}

/// The canonical text of the GO-cup kind.
pub open spec fn text_go_cup() -> Seq<u8> {
    seq![71u8, 79u8, 32u8, 67u8, 117u8, 112u8]
}

/// The canonical text of the league-challenge kind.
pub open spec fn text_league_challenge() -> Seq<u8> {
    seq![76u8, 101u8, 97u8, 103u8, 117u8, 101u8, 32u8, 67u8, 104u8, 97u8, 108u8, 108u8, 101u8, 110u8, 103u8, 101u8]
}

/// The kind denoted by an already-trimmed kind text: an exact,
/// case-sensitive match against the closed enumeration, with every other
/// text preserved verbatim in the fallback variant.
pub open spec fn kind_of_text(t: Seq<u8>) -> KindView {
    if t == text_league_challenge_vg() {
        KindView::LeagueChallengeVG
    } else if t == text_league_cup_vg() {
        KindView::LeagueCupVG
    } else if t == text_go_challenge() {
        KindView::GoChallenge
    } else if t == text_league_cup() {
        KindView::LeagueCup
    } else if t == text_pre_release() {
        KindView::PreRelease
    } else if t == text_go_cup() {
        KindView::GoCup
    } else if t == text_league_challenge() {
        KindView::LeagueChallenge
    } else {
        KindView::Other(t)
    }
}

/// The canonical text a kind is stored under; the fallback variant is
/// stored as its own payload.
pub open spec fn text_of_kind(k: KindView) -> Seq<u8> {
    match k {
        KindView::LeagueChallengeVG => text_league_challenge_vg(),
        KindView::LeagueCupVG => text_league_cup_vg(),
        KindView::GoChallenge => text_go_challenge(),
        KindView::LeagueCup => text_league_cup(),
        KindView::PreRelease => text_pre_release(),
        KindView::GoCup => text_go_cup(),
        KindView::LeagueChallenge => text_league_challenge(),
        KindView::Other(t) => t,
    }
}

impl EventKind {
    /// Parses a kind field: trims it, matches it case-sensitively against
    /// the closed enumeration, and preserves any other text verbatim.
    /// Parsing never fails; the `Result` mirrors the parsing interface of
    /// kind texts, and is always `Ok`.
    pub fn from_str(value: &[u8]) -> (r: Result<EventKind, ()>)
        ensures
            r matches Ok(k) && k@ == kind_of_text(trim_spec(value@)),
    {
        Ok(Self::parse(value))
    }

    /// Parses a kind field: trims it, matches it case-sensitively against
    /// the closed enumeration, and preserves any other text verbatim.
    pub fn parse(value: &[u8]) -> (r: EventKind)
        ensures
            r@ == kind_of_text(trim_spec(value@)),
    {
        let t = trim(value);
        let lit_lcvg: Vec<u8> = vec![76u8, 101u8, 97u8, 103u8, 117u8, 101u8, 32u8, 67u8, 104u8, 97u8, 108u8, 108u8, 101u8, 110u8, 103u8, 101u8, 32u8, 86u8, 71u8];
        proof {
            assert(lit_lcvg@ =~= text_league_challenge_vg());
        }
        if bytes_eq(t.as_slice(), lit_lcvg.as_slice()) {
            return EventKind::LeagueChallengeVG;
        }
        let lit_lcupvg: Vec<u8> = vec![76u8, 101u8, 97u8, 103u8, 117u8, 101u8, 32u8, 67u8, 117u8, 112u8, 32u8, 86u8, 71u8];
        proof {
            assert(lit_lcupvg@ =~= text_league_cup_vg());
        }
        if bytes_eq(t.as_slice(), lit_lcupvg.as_slice()) {
            return EventKind::LeagueCupVG;
        }
        let lit_goch: Vec<u8> = vec![71u8, 79u8, 32u8, 67u8, 104u8, 97u8, 108u8, 108u8, 101u8, 110u8, 103u8, 101u8];
        proof {
            assert(lit_goch@ =~= text_go_challenge());
        }
        if bytes_eq(t.as_slice(), lit_goch.as_slice()) {
            return EventKind::GoChallenge;
        }
        let lit_lcup: Vec<u8> = vec![76u8, 101u8, 97u8, 103u8, 117u8, 101u8, 32u8, 67u8, 117u8, 112u8];
        proof {
            assert(lit_lcup@ =~= text_league_cup());
        }
        if bytes_eq(t.as_slice(), lit_lcup.as_slice()) {
            return EventKind::LeagueCup;
        }
        let lit_prer: Vec<u8> = vec![80u8, 114u8, 101u8, 32u8, 82u8, 101u8, 108u8, 101u8, 97u8, 115u8, 101u8];
        proof {
            assert(lit_prer@ =~= text_pre_release());
        }
        if bytes_eq(t.as_slice(), lit_prer.as_slice()) {
            return EventKind::PreRelease;
        }
        let lit_gocup: Vec<u8> = vec![71u8, 79u8, 32u8, 67u8, 117u8, 112u8];
        proof {
            assert(lit_gocup@ =~= text_go_cup());
        }
        if bytes_eq(t.as_slice(), lit_gocup.as_slice()) {
            return EventKind::GoCup;
        }
        let lit_lch: Vec<u8> = vec![76u8, 101u8, 97u8, 103u8, 117u8, 101u8, 32u8, 67u8, 104u8, 97u8, 108u8, 108u8, 101u8, 110u8, 103u8, 101u8];
        proof {
            assert(lit_lch@ =~= text_league_challenge());
        }
        if bytes_eq(t.as_slice(), lit_lch.as_slice()) {
            return EventKind::LeagueChallenge;
        }
        EventKind::Other(t)
    }

    /// An equal copy of this kind.
    pub fn clone_kind(&self) -> (r: EventKind)
        ensures
            r@ == self@,
    {
        match self {
            EventKind::LeagueChallengeVG => EventKind::LeagueChallengeVG,
            EventKind::LeagueCupVG => EventKind::LeagueCupVG,
            EventKind::GoChallenge => EventKind::GoChallenge,
            EventKind::LeagueCup => EventKind::LeagueCup,
            EventKind::PreRelease => EventKind::PreRelease,
            EventKind::GoCup => EventKind::GoCup,
            EventKind::LeagueChallenge => EventKind::LeagueChallenge,
            EventKind::Other(t) => EventKind::Other(vstd::slice::slice_to_vec(t.as_slice())),
        }
    }

    /// The canonical text this kind is stored under.
    pub fn name_bytes(&self) -> (r: Vec<u8>)
        ensures
            r@ == text_of_kind(self@),
    {
        match self {
            EventKind::LeagueChallengeVG => {
                let v: Vec<u8> = vec![76u8, 101u8, 97u8, 103u8, 117u8, 101u8, 32u8, 67u8, 104u8, 97u8, 108u8, 108u8, 101u8, 110u8, 103u8, 101u8, 32u8, 86u8, 71u8];
                proof {
                    assert(v@ =~= text_league_challenge_vg());
                }
                v
            },
            EventKind::LeagueCupVG => {
                let v: Vec<u8> = vec![76u8, 101u8, 97u8, 103u8, 117u8, 101u8, 32u8, 67u8, 117u8, 112u8, 32u8, 86u8, 71u8];
                proof {
                    assert(v@ =~= text_league_cup_vg());
                }
                v
            },
            EventKind::GoChallenge => {
                let v: Vec<u8> = vec![71u8, 79u8, 32u8, 67u8, 104u8, 97u8, 108u8, 108u8, 101u8, 110u8, 103u8, 101u8];
                proof {
                    assert(v@ =~= text_go_challenge());
                }
                v
            },
            EventKind::LeagueCup => {
                let v: Vec<u8> = vec![76u8, 101u8, 97u8, 103u8, 117u8, 101u8, 32u8, 67u8, 117u8, 112u8];
                proof {
                    assert(v@ =~= text_league_cup());
                }
                v
            },
            EventKind::PreRelease => {
                let v: Vec<u8> = vec![80u8, 114u8, 101u8, 32u8, 82u8, 101u8, 108u8, 101u8, 97u8, 115u8, 101u8];
                proof {
                    assert(v@ =~= text_pre_release());
                }
                v
            },
            EventKind::GoCup => {
                let v: Vec<u8> = vec![71u8, 79u8, 32u8, 67u8, 117u8, 112u8];
                proof {
                    assert(v@ =~= text_go_cup());
                }
                v
            },
            EventKind::LeagueChallenge => {
                let v: Vec<u8> = vec![76u8, 101u8, 97u8, 103u8, 117u8, 101u8, 32u8, 67u8, 104u8, 97u8, 108u8, 108u8, 101u8, 110u8, 103u8, 101u8];
                proof {
                    assert(v@ =~= text_league_challenge());
                }
                v
            },
            EventKind::Other(t) => vstd::slice::slice_to_vec(t.as_slice()),
        }
    }
}

} // verus!
