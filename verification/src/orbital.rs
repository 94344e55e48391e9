//! Hydrogen orbitals: their labels, shells, energies and the extent of their
//! electron clouds. Everything here is exact integer arithmetic; the wave
//! functions themselves are evaluated in floating point by the renderer.

use vstd::prelude::*;

verus! {

/// Energies are expressed as integer multiples of `1 / ENERGY_UNITS_PER_HARTREE`
/// Hartree. With shells n ≤ 3 the value `Eₙ = −1/(2n²)` is then an exact integer,
/// because 72 = 2·lcm(1, 4, 9).
pub const ENERGY_UNITS_PER_HARTREE: u32 = 72;

/// View radii are expressed in tenths of a Bohr radius.
pub const RADIUS_UNITS_PER_BOHR: u32 = 10;

/// A selection of hydrogen wave functions, in atomic units (a₀ = 1, ħ = 1).
#[derive(Clone, Copy, PartialEq, Eq, Structural, Debug)]
pub enum Orbital {
    S1,
    S2,
    P2z,
    P3z,
    D3z2,
    D3xy,
}

impl Orbital {
    /// The orbital's label as shown on screen.
    pub open spec fn label(self) -> Seq<char> {
        match self {
            Orbital::S1 => "1s"@,
            Orbital::S2 => "2s"@,
            Orbital::P2z => "2p_z"@,
            Orbital::P3z => "3p_z"@,
            Orbital::D3z2 => "3d_z2"@,
            Orbital::D3xy => "3d_xy"@,
        }
    }

    /// Principal quantum number n.
    pub open spec fn shell(self) -> nat {
        match self {
            Orbital::S1 => 1,
            Orbital::S2 | Orbital::P2z => 2,
            Orbital::P3z | Orbital::D3z2 | Orbital::D3xy => 3,
        }
    }

    /// Energy eigenvalue in units of 1/72 Hartree: −36/n², i.e. −1/(2n²) Hartree.
    pub open spec fn energy_units(self) -> int {
        if self.shell() == 1 {
            -36
        } else if self.shell() == 2 {
            -9
        } else {
            -4
        }
    }

    /// Half-width, in tenths of a Bohr radius, of the cube that holds the cloud.
    pub open spec fn radius_tenths(self) -> nat {
        if self.shell() == 1 {
            45
        } else if self.shell() == 2 {
            130
        } else {
            260
        }
    }

    pub fn name(self) -> (s: &'static str)
        ensures
            s@ == self.label(),
    {
        match self {
            Orbital::S1 => "1s",
            Orbital::S2 => "2s",
            Orbital::P2z => "2p_z",
            Orbital::P3z => "3p_z",
            Orbital::D3z2 => "3d_z2",
            Orbital::D3xy => "3d_xy",
        }
    }

    /// Principal quantum number n. The energy depends only on n.
    pub fn n(self) -> (n: u32)
        ensures
            n == self.shell(),
            1 <= n <= 3,
    {
        match self {
            Orbital::S1 => 1,
            Orbital::S2 | Orbital::P2z => 2,
            Orbital::P3z | Orbital::D3z2 | Orbital::D3xy => 3,
        }
    }

    /// Energy eigenvalue Eₙ = −1/(2n²) Hartree, as a multiple of
    /// `1 / ENERGY_UNITS_PER_HARTREE` Hartree.
    pub fn energy(self) -> (e: i32)
        ensures
            e == self.energy_units(),
            e * (2 * self.shell() * self.shell()) == -(ENERGY_UNITS_PER_HARTREE as int),
    {
        let n = self.n();
        if n == 1 {
            -36
        } else if n == 2 {
            -9
        } else {
            -4
        }
    }

    /// Half-width of the cube that comfortably contains the cloud, as a multiple
    /// of `1 / RADIUS_UNITS_PER_BOHR` Bohr radii (4.5, 13 and 26 a₀ by shell).
    pub fn view_radius(self) -> (r: u32)
        ensures
            r == self.radius_tenths(),
    {
        match self {
            Orbital::S1 => 45,
            Orbital::S2 | Orbital::P2z => 130,
            Orbital::P3z | Orbital::D3z2 | Orbital::D3xy => 260,
        }
    }
}

/// The energy of an orbital depends only on its principal quantum number, and
/// two orbitals have the same energy only when they share that number.
pub proof fn lemma_energy_determined_by_shell(a: Orbital, b: Orbital)
    ensures
        (a.energy_units() == b.energy_units()) <==> (a.shell() == b.shell()),
{
}

/// Energies rise strictly with the shell: a higher shell is less tightly bound.
pub proof fn lemma_energy_increases_with_shell(a: Orbital, b: Orbital)
    requires
        a.shell() < b.shell(),
    ensures
        a.energy_units() < b.energy_units(),
{
}

/// Different orbitals carry different labels, and every label starts with
/// the digit of its shell.
pub proof fn lemma_labels_distinct(a: Orbital, b: Orbital)
    ensures
        a != b ==> a.label() != b.label(),
        a.label().len() >= 2,
        a.label()[0] == (if a.shell() == 1 { '1' } else if a.shell() == 2 { '2' } else { '3' }),
{
    reveal_strlit("1s");
    reveal_strlit("2s");
    reveal_strlit("2p_z");
    reveal_strlit("3p_z");
    reveal_strlit("3d_z2");
    reveal_strlit("3d_xy");
    if a != b && a.label() == b.label() {
        assert(a.label().len() == b.label().len());
        assert(a.label()[0] == b.label()[0]);
        assert(a.label()[1] == b.label()[1]);
        if a.label().len() > 2 {
            assert(a.label()[3] == b.label()[3]);
        }
    }
}

/// The view radius depends only on the shell and grows strictly with it.
pub proof fn lemma_radius_grows_with_shell(a: Orbital, b: Orbital)
    ensures
        a.shell() == b.shell() ==> a.radius_tenths() == b.radius_tenths(),
        a.shell() < b.shell() ==> a.radius_tenths() < b.radius_tenths(),
{
}

} // verus!
