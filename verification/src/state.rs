//! The state on screen: a lone eigenstate or a superposition of orbitals, and
//! the exact quantities the renderer derives from it (extent, normalisation,
//! Bohr frequencies and the default animation speed).

use vstd::prelude::*;

use crate::orbital::Orbital;

verus! {

/// One term of a superposition: an orbital with its raw (unnormalised)
/// integer weight. The on-screen coefficient is `weight / sqrt(norm_sq)`.
#[derive(Clone, Copy, PartialEq, Eq, Structural, Debug)]
pub struct Term {
    pub orbital: Orbital,
    pub weight: u32,
}

/// The thing currently on screen: either a lone eigenstate or a
/// time-evolving superposition.
#[derive(Debug, PartialEq, Eq)]
pub enum SimState {
    Single(Orbital),
    Superposition { name: &'static str, terms: Vec<Term> },
}

/// The mathematical content of a [`SimState`].
pub ghost enum StateView {
    Single(Orbital),
    Superposition { name: Seq<char>, terms: Seq<Term> },
}

impl StateView {
    pub open spec fn label(self) -> Seq<char> {
        match self {
            StateView::Single(o) => o.label(),
            StateView::Superposition { name, .. } => name,
        }
    }

    pub open spec fn term_seq(self) -> Seq<Term> {
        match self {
            StateView::Single(o) => seq![Term { orbital: o, weight: 1 }],
            StateView::Superposition { terms, .. } => terms,
        }
    }

    pub open spec fn dynamic(self) -> bool {
        self is Superposition
    }
}

impl View for SimState {
    type V = StateView;

    open spec fn view(&self) -> StateView {
        match self {
            SimState::Single(o) => StateView::Single(*o),
            SimState::Superposition { name, terms } => StateView::Superposition {
                name: name@,
                terms: terms@,
            },
        }
    }
}

/// Numerator of the default speed `1.5 / ΔE`, with ΔE in 1/72 Hartree units
/// (1.5 · 72 = 108).
pub const SPEED_NUMERATOR: u32 = 108;

/// Speed used when a state has no Bohr frequency at all.
pub const DEFAULT_SPEED: u32 = 4;

/// Lower clamp of the suggested speed.
pub const MIN_SPEED: u32 = 1;

/// Upper clamp of the suggested speed.
pub const MAX_SPEED: u32 = 12;

/// Number of superposition presets (keys 7, 8, 9 and 0).
pub const PRESET_COUNT: usize = 4;

/// The superposition presets. Every index past the last names the last one.
pub open spec fn preset_view(index: int) -> StateView {
    if index == 0 {
        StateView::Superposition {
            name: "1s + 2p_z"@,
            terms: seq![
                Term { orbital: Orbital::S1, weight: 1 },
                Term { orbital: Orbital::P2z, weight: 1 },
            ],
        }
    } else if index == 1 {
        StateView::Superposition {
            name: "1s + 2s"@,
            terms: seq![
                Term { orbital: Orbital::S1, weight: 1 },
                Term { orbital: Orbital::S2, weight: 1 },
            ],
        }
    } else if index == 2 {
        StateView::Superposition {
            name: "2p_z + 3d_z2"@,
            terms: seq![
                Term { orbital: Orbital::P2z, weight: 1 },
                Term { orbital: Orbital::D3z2, weight: 1 },
            ],
        }
    } else {
        StateView::Superposition {
            name: "1s + 2p_z + 3d_z2"@,
            terms: seq![
                Term { orbital: Orbital::S1, weight: 1 },
                Term { orbital: Orbital::P2z, weight: 1 },
                Term { orbital: Orbital::D3z2, weight: 1 },
            ],
        }
    }
}

/// Largest view radius over the terms (0 for no terms).
pub open spec fn max_radius(s: Seq<Term>) -> nat
    decreases s.len(),
{
    if s.len() == 0 {
        0
    } else {
        let r = s.last().orbital.radius_tenths();
        let rest = max_radius(s.drop_last());
        if rest >= r {
            rest
        } else {
            r
        }
    }
}

/// Sum of the squared raw weights: the square of the normalisation factor.
pub open spec fn weight_sq_sum(s: Seq<Term>) -> nat
    decreases s.len(),
{
    if s.len() == 0 {
        0
    } else {
        weight_sq_sum(s.drop_last()) + (s.last().weight * s.last().weight) as nat
    }
}

/// Bohr frequency |Eₐ − E_b| of a pair of terms, in 1/72 Hartree.
pub open spec fn gap(a: Term, b: Term) -> nat {
    let d = a.orbital.energy_units() - b.orbital.energy_units();
    if d >= 0 {
        d as nat
    } else {
        (-d) as nat
    }
}

/// `g` is the largest Bohr frequency among pairs of distinct terms of `s`,
/// or 0 when `s` has fewer than two terms.
pub open spec fn is_max_gap(s: Seq<Term>, g: nat) -> bool {
    &&& forall|i: int, j: int| 0 <= i < j < s.len() ==> #[trigger] gap(s[i], s[j]) <= g
    &&& (g == 0 || exists|i: int, j: int| 0 <= i < j < s.len() && #[trigger] gap(s[i], s[j]) == g)
}

/// Largest Bohr frequency between the last term `t` and the terms of `s`.
pub open spec fn max_gap_to(s: Seq<Term>, t: Term) -> nat
    decreases s.len(),
{
    if s.len() == 0 {
        0
    } else {
        let g = gap(s.last(), t);
        let rest = max_gap_to(s.drop_last(), t);
        if rest >= g {
            rest
        } else {
            g
        }
    }
}

/// Largest Bohr frequency among all pairs of terms of `s` (0 without pairs).
pub open spec fn max_gap(s: Seq<Term>) -> nat
    decreases s.len(),
{
    if s.len() < 2 {
        0
    } else {
        let a = max_gap(s.drop_last());
        let b = max_gap_to(s.drop_last(), s.last());
        if a >= b {
            a
        } else {
            b
        }
    }
}

/// The default animation speed `clamp(1.5 / ΔE_max, 1, 12)` for a largest Bohr
/// frequency of `g` (in 1/72 Hartree), as an exact fraction (numerator,
/// denominator); `DEFAULT_SPEED` when there is no frequency at all.
pub open spec fn speed_for_gap(g: nat) -> (nat, nat) {
    if g == 0 {
        (DEFAULT_SPEED as nat, 1)
    } else if SPEED_NUMERATOR > MAX_SPEED * g {
        (MAX_SPEED as nat, 1)
    } else if SPEED_NUMERATOR < MIN_SPEED * g {
        (MIN_SPEED as nat, 1)
    } else {
        (SPEED_NUMERATOR as nat, g)
    }
}

/// Every term of `s` lies in the same shell.
pub open spec fn one_shell(s: Seq<Term>) -> bool {
    forall|i: int, j: int|
        0 <= i < s.len() && 0 <= j < s.len() ==> #[trigger] s[i].orbital.shell()
            == #[trigger] s[j].orbital.shell()
}

/// No two terms of `s` lie in the same shell.
pub open spec fn distinct_shells(s: Seq<Term>) -> bool {
    forall|i: int, j: int|
        0 <= i < j < s.len() ==> #[trigger] s[i].orbital.shell() != #[trigger] s[j].orbital.shell()
}

proof fn lemma_max_gap_to_is_max(s: Seq<Term>, t: Term)
    ensures
        forall|i: int| 0 <= i < s.len() ==> #[trigger] gap(s[i], t) <= max_gap_to(s, t),
        max_gap_to(s, t) == 0 || exists|i: int|
            0 <= i < s.len() && #[trigger] gap(s[i], t) == max_gap_to(s, t),
    decreases s.len(),
{
    if s.len() > 0 {
        let p = s.drop_last();
        lemma_max_gap_to_is_max(p, t);
        assert forall|i: int| 0 <= i < s.len() implies #[trigger] gap(s[i], t) <= max_gap_to(s, t) by {
            if i < s.len() - 1 {
                assert(s[i] == p[i]);
            }
        }
        if max_gap_to(s, t) != 0 {
            if max_gap_to(s, t) == gap(s.last(), t) {
                assert(gap(s[s.len() - 1], t) == max_gap_to(s, t));
            } else {
                let i = choose|i: int| 0 <= i < p.len() && #[trigger] gap(p[i], t) == max_gap_to(p, t);
                assert(s[i] == p[i]);
                assert(gap(s[i], t) == max_gap_to(s, t));
            }
        }
    }
}

/// `max_gap` is the largest Bohr frequency among pairs of terms.
pub proof fn lemma_max_gap_is_max(s: Seq<Term>)
    ensures
        is_max_gap(s, max_gap(s)),
    decreases s.len(),
{
    if s.len() >= 2 {
        let p = s.drop_last();
        let t = s.last();
        lemma_max_gap_is_max(p);
        lemma_max_gap_to_is_max(p, t);
        let m = max_gap(s);
        assert forall|i: int, j: int| 0 <= i < j < s.len() implies #[trigger] gap(s[i], s[j]) <= m by {
            assert(s[i] == p[i]);
            if j < s.len() - 1 {
                assert(s[j] == p[j]);
                assert(gap(p[i], p[j]) <= max_gap(p));
            } else {
                assert(gap(p[i], t) <= max_gap_to(p, t));
            }
        }
        if m != 0 {
            if m == max_gap(p) {
                let (i, j) = choose|i: int, j: int| 0 <= i < j < p.len() && #[trigger] gap(p[i], p[j]) == max_gap(p);
                assert(s[i] == p[i] && s[j] == p[j]);
                assert(gap(s[i], s[j]) == m);
            } else {
                let i = choose|i: int| 0 <= i < p.len() && #[trigger] gap(p[i], t) == max_gap_to(p, t);
                assert(s[i] == p[i] && s[s.len() - 1] == t);
                assert(gap(s[i], s[s.len() - 1]) == m);
            }
        }
    }
}

/// There is only one largest Bohr frequency.
pub proof fn lemma_max_gap_unique(s: Seq<Term>, g: nat)
    requires
        is_max_gap(s, g),
    ensures
        g == max_gap(s),
{
    lemma_max_gap_is_max(s);
    let m = max_gap(s);
    if g != 0 {
        let (i, j) = choose|i: int, j: int| 0 <= i < j < s.len() && #[trigger] gap(s[i], s[j]) == g;
        assert(gap(s[i], s[j]) <= m);
    }
    if m != 0 {
        let (i, j) = choose|i: int, j: int| 0 <= i < j < s.len() && #[trigger] gap(s[i], s[j]) == m;
        assert(gap(s[i], s[j]) <= g);
    }
}


/// `|a − b|` of two orbital energies, as an exact integer.
fn energy_gap(a: Orbital, b: Orbital) -> (g: u32)
    ensures
        g == gap(Term { orbital: a, weight: 0 }, Term { orbital: b, weight: 0 }),
{
    let ea = a.energy();
    let eb = b.energy();
    if ea >= eb {
        (ea - eb) as u32
    } else {
        (eb - ea) as u32
    }
}

impl SimState {
    /// Build the superposition for preset keys 7..0 (indices 0..3; any larger
    /// index gives the last preset).
    pub fn preset(index: usize) -> (s: SimState)
        ensures
            s@ == preset_view(index as int),
    {
        if index == 0 {
            SimState::Superposition {
                name: "1s + 2p_z",
                terms: vec![
                    Term { orbital: Orbital::S1, weight: 1 },
                    Term { orbital: Orbital::P2z, weight: 1 },
                ],
            }
        } else if index == 1 {
            SimState::Superposition {
                name: "1s + 2s",
                terms: vec![
                    Term { orbital: Orbital::S1, weight: 1 },
                    Term { orbital: Orbital::S2, weight: 1 },
                ],
            }
        } else if index == 2 {
            SimState::Superposition {
                name: "2p_z + 3d_z2",
                terms: vec![
                    Term { orbital: Orbital::P2z, weight: 1 },
                    Term { orbital: Orbital::D3z2, weight: 1 },
                ],
            }
        } else {
            SimState::Superposition {
                name: "1s + 2p_z + 3d_z2",
                terms: vec![
                    Term { orbital: Orbital::S1, weight: 1 },
                    Term { orbital: Orbital::P2z, weight: 1 },
                    Term { orbital: Orbital::D3z2, weight: 1 },
                ],
            }
        }
    }

    pub fn name(&self) -> (r: &str)
        ensures
            r@ == self@.label(),
    {
        match self {
            SimState::Single(o) => o.name(),
            SimState::Superposition { name, .. } => name,
        }
    }

    /// Superpositions evolve in time; lone eigenstates are stationary.
    pub fn is_dynamic(&self) -> (r: bool)
        ensures
            r == self@.dynamic(),
    {
        match self {
            SimState::Single(_) => false,
            SimState::Superposition { .. } => true,
        }
    }

    /// The weighted terms of the state; a lone eigenstate is one term of weight 1.
    pub fn terms(&self) -> (r: Vec<Term>)
        ensures
            r@ == self@.term_seq(),
    {
        match self {
            SimState::Single(o) => vec![Term { orbital: *o, weight: 1 }],
            SimState::Superposition { terms, .. } => {
                let mut out: Vec<Term> = Vec::new();
                let mut i: usize = 0;
                while i < terms.len()
                    invariant
                        i <= terms.len(),
                        out@ == terms@.take(i as int),
                    decreases terms.len() - i,
                {
                    out.push(terms[i]);
                    i = i + 1;
                    assert(out@ =~= terms@.take(i as int));
                }
                assert(terms@.take(terms.len() as int) =~= terms@);
                out
            },
        }
    }

    /// Half-width of the cube holding every term's cloud, in tenths of a Bohr
    /// radius: the largest view radius over the terms.
    pub fn view_radius(&self) -> (r: u32)
        ensures
            r == max_radius(self@.term_seq()),
    {
        let terms = self.terms();
        let ghost s = terms@;
        let mut r: u32 = 0;
        let mut i: usize = 0;
        while i < terms.len()
            invariant
                i <= terms.len(),
                s == terms@,
                r == max_radius(s.take(i as int)),
                r <= 260,
            decreases terms.len() - i,
        {
            let v = terms[i].orbital.view_radius();
            assert(s.take(i as int + 1).drop_last() =~= s.take(i as int));
            if v > r {
                r = v;
            }
            i = i + 1;
        }
        assert(s.take(terms.len() as int) =~= s);
        r
    }

    /// Sum of the squared raw weights; the on-screen coefficient of a term is
    /// its weight divided by the square root of this sum.
    pub fn norm_sq(&self) -> (r: u128)
        ensures
            r == weight_sq_sum(self@.term_seq()),
    {
        let terms = self.terms();
        let ghost s = terms@;
        let mut acc: u128 = 0;
        let mut i: usize = 0;
        while i < terms.len()
            invariant
                i <= terms.len(),
                s == terms@,
                acc == weight_sq_sum(s.take(i as int)),
                acc <= i * 0xffff_fffe_0000_0001u128,
            decreases terms.len() - i,
        {
            let w = terms[i].weight as u128;
            assert(w * w <= 0xffff_fffe_0000_0001u128) by (nonlinear_arith)
                requires
                    w <= 0xffff_ffffu128,
            ;
            assert(s.take(i as int + 1).drop_last() =~= s.take(i as int));
            assert((i + 1) * 0xffff_fffe_0000_0001u128 == i * 0xffff_fffe_0000_0001u128
                + 0xffff_fffe_0000_0001u128) by (nonlinear_arith);
            assert((i + 1) * 0xffff_fffe_0000_0001u128 <= u128::MAX) by (nonlinear_arith)
                requires
                    i < usize::MAX,
            ;
            acc = acc + w * w;
            i = i + 1;
        }
        assert(s.take(terms.len() as int) =~= s);
        acc
    }

    /// The largest Bohr frequency |Eₐ − E_b| over pairs of terms, in 1/72
    /// Hartree (0 when no pair of terms differs in energy).
    pub fn max_energy_gap(&self) -> (g: u32)
        ensures
            g == max_gap(self@.term_seq()),
            is_max_gap(self@.term_seq(), g as nat),
    {
        let terms = self.terms();
        let ghost s = terms@;
        let n = terms.len();
        let mut best: u32 = 0;
        let mut i: usize = 0;
        while i < n
            invariant
                n == terms.len(),
                s == terms@,
                i <= n,
                forall|p: int, q: int| 0 <= p < q < s.len() && p < i ==> #[trigger] gap(s[p], s[q]) <= best,
                best == 0 || exists|p: int, q: int| 0 <= p < q < s.len() && #[trigger] gap(s[p], s[q]) == best,
            decreases n - i,
        {
            let mut j: usize = i + 1;
            while j < n
                invariant
                    n == terms.len(),
                    s == terms@,
                    i < n,
                    i + 1 <= j <= n,
                    forall|p: int, q: int| 0 <= p < q < s.len() && p < i ==> #[trigger] gap(s[p], s[q]) <= best,
                    forall|q: int| i < q < j ==> #[trigger] gap(s[i as int], s[q]) <= best,
                    best == 0 || exists|p: int, q: int| 0 <= p < q < s.len() && #[trigger] gap(s[p], s[q]) == best,
                decreases n - j,
            {
                let d = energy_gap(terms[i].orbital, terms[j].orbital);
                assert(gap(s[i as int], s[j as int]) == d);
                if d > best {
                    best = d;
                }
                j = j + 1;
            }
            i = i + 1;
        }
        proof {
            lemma_max_gap_unique(s, best as nat);
        }
        best
    }

    /// A default animation speed that makes the dominant Bohr frequency
    /// watchable: `clamp(1.5 / ΔE_max, 1, 12)` with ΔE_max in Hartree, or 4
    /// when the state has no Bohr frequency. Returned as an exact fraction
    /// (numerator, denominator).
    pub fn suggested_speed(&self) -> (r: (u32, u32))
        ensures
            (r.0 as nat, r.1 as nat) == speed_for_gap(max_gap(self@.term_seq())),
    {
        let g = self.max_energy_gap();
        if g == 0 {
            (DEFAULT_SPEED, 1)
        } else if SPEED_NUMERATOR > MAX_SPEED * g {
            (MAX_SPEED, 1)
        } else if SPEED_NUMERATOR < MIN_SPEED * g {
            (MIN_SPEED, 1)
        } else {
            (SPEED_NUMERATOR, g)
        }
    }
}


/// Every superposition preset combines orbitals with distinct principal
/// quantum numbers.
pub proof fn lemma_presets_have_distinct_shells(index: int)
    ensures
        distinct_shells(preset_view(index).term_seq()),
{
}

/// A state is stationary (has no Bohr frequency) exactly when all its terms
/// lie in one shell.
pub proof fn lemma_stationary_iff_one_shell(s: Seq<Term>)
    ensures
        (max_gap(s) == 0) <==> one_shell(s),
{
    lemma_max_gap_is_max(s);
    if max_gap(s) == 0 {
        assert forall|i: int, j: int| 0 <= i < s.len() && 0 <= j < s.len() implies #[trigger] s[i].orbital.shell()
            == #[trigger] s[j].orbital.shell() by {
            if i < j {
                assert(gap(s[i], s[j]) <= 0);
            } else if j < i {
                assert(gap(s[j], s[i]) <= 0);
            }
        }
    } else {
        let (i, j) = choose|i: int, j: int| 0 <= i < j < s.len() && #[trigger] gap(s[i], s[j]) == max_gap(s);
        assert(s[i].orbital.shell() != s[j].orbital.shell());
    }
}

/// The suggested speed always lies between `MIN_SPEED` and `MAX_SPEED`.
pub proof fn lemma_speed_in_range(g: nat)
    ensures
        speed_for_gap(g).1 > 0,
        MIN_SPEED * speed_for_gap(g).1 <= speed_for_gap(g).0 <= MAX_SPEED * speed_for_gap(g).1,
{
}

/// A lone eigenstate is stationary, animates at the default speed, and its
/// one coefficient is exactly 1.
pub proof fn lemma_eigenstate_is_stationary(o: Orbital)
    ensures
        weight_sq_sum(StateView::Single(o).term_seq()) == 1,
        max_gap(StateView::Single(o).term_seq()) == 0,
        speed_for_gap(max_gap(StateView::Single(o).term_seq())) == (DEFAULT_SPEED as nat, 1nat),
{
    let s = StateView::Single(o).term_seq();
    assert(s.drop_last() =~= Seq::<Term>::empty());
    assert(weight_sq_sum(s.drop_last()) == 0);
    assert(s.last().weight == 1);
    assert(weight_sq_sum(s) == weight_sq_sum(s.drop_last()) + (s.last().weight * s.last().weight) as nat);
}

/// Every preset evolves in time: it has a nonzero Bohr frequency, so its
/// suggested speed comes from that frequency rather than the default.
pub proof fn lemma_presets_evolve(index: int)
    ensures
        preset_view(index).dynamic(),
        max_gap(preset_view(index).term_seq()) > 0,
{
    let s = preset_view(index).term_seq();
    lemma_stationary_iff_one_shell(s);
    assert(s[0].orbital.shell() != s[1].orbital.shell());
}

/// The view radius of a state covers the cloud of every one of its terms,
/// and is the radius of one of them when there is any.
pub proof fn lemma_view_radius_covers_terms(s: Seq<Term>)
    ensures
        forall|i: int| 0 <= i < s.len() ==> #[trigger] s[i].orbital.radius_tenths() <= max_radius(s),
        s.len() > 0 ==> exists|i: int| 0 <= i < s.len() && #[trigger] s[i].orbital.radius_tenths() == max_radius(s),
    decreases s.len(),
{
    if s.len() > 0 {
        let p = s.drop_last();
        lemma_view_radius_covers_terms(p);
        assert forall|i: int| 0 <= i < s.len() implies #[trigger] s[i].orbital.radius_tenths() <= max_radius(s) by {
            if i < s.len() - 1 {
                assert(s[i] == p[i]);
            }
        }
        if max_radius(s) == s.last().orbital.radius_tenths() {
            assert(s[s.len() - 1].orbital.radius_tenths() == max_radius(s));
        } else {
            let i = choose|i: int| 0 <= i < p.len() && #[trigger] p[i].orbital.radius_tenths() == max_radius(p);
            assert(s[i] == p[i]);
            assert(s[i].orbital.radius_tenths() == max_radius(s));
        }
    }
}

/// The normalisation sums the squared weight of every term, whatever its
/// shell: no terms sum to 0, and appending a term adds its squared weight.
pub proof fn lemma_norm_counts_every_term(s: Seq<Term>, t: Term)
    ensures
        weight_sq_sum(Seq::<Term>::empty()) == 0,
        weight_sq_sum(s.push(t)) == weight_sq_sum(s) + t.weight * t.weight,
        weight_sq_sum(seq![t]) == t.weight * t.weight,
{
    assert(s.push(t).drop_last() =~= s);
    assert(seq![t].drop_last() =~= Seq::<Term>::empty());
}

/// Every superposition evolves in time and no lone eigenstate does,
/// whatever the terms; in particular a state with a Bohr frequency evolves.
pub proof fn lemma_superpositions_are_dynamic(name: Seq<char>, terms: Seq<Term>, o: Orbital)
    ensures
        (StateView::Superposition { name, terms }).dynamic(),
        !StateView::Single(o).dynamic(),
{
}

/// Any state with a Bohr frequency evolves in time, whatever shells its
/// terms come from.
pub proof fn lemma_bohr_frequency_means_dynamic(v: StateView)
    ensures
        max_gap(v.term_seq()) > 0 ==> v.dynamic(),
{
    if let StateView::Single(o) = v {
        lemma_eigenstate_is_stationary(o);
    }
}

/// The terms of a superposition are exactly the terms it was built with, all
/// of them and in order; a lone eigenstate is its orbital with weight 1.
pub proof fn lemma_terms_are_the_stored_terms(name: Seq<char>, terms: Seq<Term>, o: Orbital)
    ensures
        (StateView::Superposition { name, terms }).term_seq() == terms,
        (StateView::Superposition { name, terms }).term_seq().len() == terms.len(),
        StateView::Single(o).term_seq() == seq![Term { orbital: o, weight: 1 }],
        forall|i: int|
            0 <= i < terms.len() ==> #[trigger] terms[i].orbital.radius_tenths() <= max_radius(
                (StateView::Superposition { name, terms }).term_seq(),
            ),
{
    lemma_view_radius_covers_terms(terms);
}

/// A state's title is its superposition's name, or for a lone eigenstate the
/// label of that orbital.
pub proof fn lemma_state_name_is_label(name: Seq<char>, terms: Seq<Term>, o: Orbital)
    ensures
        StateView::Single(o).label() == o.label(),
        (StateView::Superposition { name, terms }).label() == name,
{
}

/// Labels of `terms`, joined with " + ".
pub open spec fn joined_labels(terms: Seq<Term>) -> Seq<char>
    decreases terms.len(),
{
    if terms.len() == 0 {
        Seq::empty()
    } else if terms.len() == 1 {
        terms[0].orbital.label()
    } else {
        joined_labels(terms.drop_last()) + " + "@ + terms.last().orbital.label()
    }
}

/// Every preset is named after its orbitals, in order, joined with " + ".
pub proof fn lemma_preset_names_list_their_orbitals(index: int)
    ensures
        preset_view(index).label() == joined_labels(preset_view(index).term_seq()),
{
    reveal_strlit("1s");
    reveal_strlit("2s");
    reveal_strlit("2p_z");
    reveal_strlit("3d_z2");
    reveal_strlit(" + ");
    reveal_strlit("1s + 2p_z");
    reveal_strlit("1s + 2s");
    reveal_strlit("2p_z + 3d_z2");
    reveal_strlit("1s + 2p_z + 3d_z2");
    let t = preset_view(index).term_seq();
    if t.len() == 2 {
        assert(t.drop_last() =~= seq![t[0]]);
        assert(joined_labels(seq![t[0]]) == t[0].orbital.label());
        assert(t.last() == t[1]);
        assert(joined_labels(t) == t[0].orbital.label() + " + "@ + t[1].orbital.label());
    } else {
        assert(t.drop_last() =~= seq![t[0], t[1]]);
        assert(t.drop_last().drop_last() =~= seq![t[0]]);
        assert(joined_labels(seq![t[0]]) == t[0].orbital.label());
        assert(t.drop_last().last() == t[1] && t.last() == t[2]);
        assert(joined_labels(t.drop_last()) == t[0].orbital.label() + " + "@ + t[1].orbital.label());
        assert(joined_labels(t) == t[0].orbital.label() + " + "@ + t[1].orbital.label() + " + "@
            + t[2].orbital.label());
    }
    assert(preset_view(index).label() =~= joined_labels(t));
}

/// The suggested speed is `1.5 / ΔE_max` (ΔE in Hartree, so `108 / g` in
/// 1/72 Hartree units) clamped to [1, 12]; without a Bohr frequency it is 4.
pub proof fn lemma_speed_is_clamped_inverse_gap(g: nat)
    ensures
        g == 0 ==> speed_for_gap(g) == (4nat, 1nat),
        g > 0 && g <= 108 && 108 <= 12 * g ==> speed_for_gap(g).0 * g == 108 * speed_for_gap(g).1,
        g > 0 && 108 > 12 * g ==> speed_for_gap(g).0 == 12 * speed_for_gap(g).1,
        g > 108 ==> speed_for_gap(g).0 == speed_for_gap(g).1,
{
}

impl Clone for SimState {
    fn clone(&self) -> (r: Self)
        ensures
            r@ == self@,
    {
        match self {
            SimState::Single(o) => SimState::Single(*o),
            SimState::Superposition { name, .. } => SimState::Superposition {
                name,
                terms: self.terms(),
            },
        }
    }
}

} // verus!
