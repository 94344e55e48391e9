//! The screenshot schedule: which capture comes next, and the file each
//! capture is written to (the base path with the capture's index inserted
//! before the extension).

use vstd::prelude::*;

verus! {

/// The decimal digit character of `d < 10`.
pub open spec fn digit_char(d: nat) -> char {
    if d == 0 {
        '0'
    } else if d == 1 {
        '1'
    } else if d == 2 {
        '2'
    } else if d == 3 {
        '3'
    } else if d == 4 {
        '4'
    } else if d == 5 {
        '5'
    } else if d == 6 {
        '6'
    } else if d == 7 {
        '7'
    } else if d == 8 {
        '8'
    } else {
        '9'
    }
}

/// Decimal representation of `n`, without leading zeros.
pub open spec fn decimal(n: nat) -> Seq<char>
    decreases n,
{
    if n < 10 {
        seq![digit_char(n)]
    } else {
        decimal(n / 10).push(digit_char(n % 10))
    }
}

/// Index of the last '.' in the file name of the path `s` (the part after
/// its last '/'), if that file name has one.
pub open spec fn last_dot(s: Seq<char>) -> Option<int>
    decreases s.len(),
{
    if s.len() == 0 {
        None
    } else if s.last() == '.' {
        Some(s.len() - 1)
    } else if s.last() == '/' {
        None
    } else {
        last_dot(s.drop_last())
    }
}

/// The base path split before the extension of its file name into stem and
/// extension; a base whose file name has no '.' keeps its whole text as
/// stem, with extension "png". Dots in directory names are not extensions.
pub open spec fn split_base(base: Seq<char>) -> (Seq<char>, Seq<char>) {
    match last_dot(base) {
        Some(i) => (base.take(i), base.skip(i + 1)),
        None => (base, "png"@),
    }
}

/// The file written for capture number `index`: `{stem}_{index}.{ext}`.
pub open spec fn shot_path_view(base: Seq<char>, index: nat) -> Seq<char> {
    split_base(base).0 + "_"@ + decimal(index) + "."@ + split_base(base).1
}

proof fn lemma_last_dot_found(s: Seq<char>, i: int)
    requires
        0 <= i < s.len(),
        s[i] == '.',
        forall|k: int| i < k < s.len() ==> s[k] != '.' && s[k] != '/',
    ensures
        last_dot(s) == Some(i),
    decreases s.len(),
{
    if i < s.len() - 1 {
        let p = s.drop_last();
        assert forall|k: int| i < k < p.len() implies p[k] != '.' && p[k] != '/' by {
            assert(p[k] == s[k]);
        }
        lemma_last_dot_found(p, i);
    }
}

proof fn lemma_last_dot_absent(s: Seq<char>, j: int)
    requires
        0 <= j <= s.len(),
        j == 0 || s[j - 1] == '/',
        forall|k: int| j <= k < s.len() ==> s[k] != '.' && s[k] != '/',
    ensures
        last_dot(s) is None,
    decreases s.len(),
{
    if s.len() > j {
        let p = s.drop_last();
        assert forall|k: int| j <= k < p.len() implies p[k] != '.' && p[k] != '/' by {
            assert(p[k] == s[k]);
        }
        if j > 0 {
            assert(p[j - 1] == s[j - 1]);
        }
        lemma_last_dot_absent(p, j);
    } else if s.len() > 0 {
        assert(s.last() == '/');
    }
}

proof fn lemma_decimal_len(n: nat)
    ensures
        decimal(n).len() >= 1,
        n < 10 <==> decimal(n).len() == 1,
    decreases n,
{
    if n >= 10 {
        lemma_decimal_len(n / 10);
    }
}

/// Distinct numbers have distinct decimal representations.
pub proof fn lemma_decimal_injective(a: nat, b: nat)
    requires
        decimal(a) == decimal(b),
    ensures
        a == b,
    decreases a,
{
    lemma_decimal_len(a);
    lemma_decimal_len(b);
    if a < 10 {
        assert(b < 10);
        assert(decimal(a)[0] == digit_char(a));
        assert(decimal(b)[0] == digit_char(b));
        assert(digit_char(a) == digit_char(b));
    } else {
        assert(b >= 10);
        assert(decimal(a).last() == digit_char(a % 10));
        assert(decimal(b).last() == digit_char(b % 10));
        assert(a % 10 == b % 10);
        assert(decimal(a).drop_last() =~= decimal(a / 10));
        assert(decimal(b).drop_last() =~= decimal(b / 10));
        lemma_decimal_injective(a / 10, b / 10);
        assert(a == 10 * (a / 10) + a % 10);
        assert(b == 10 * (b / 10) + b % 10);
    }
}

/// Where the file name of the path `s` begins: just after its last '/', or
/// at 0 when it has none.
pub open spec fn file_start(s: Seq<char>) -> int
    decreases s.len(),
{
    if s.len() == 0 {
        0
    } else if s.last() == '/' {
        s.len() as int
    } else {
        file_start(s.drop_last())
    }
}

proof fn lemma_file_start(s: Seq<char>)
    ensures
        0 <= file_start(s) <= s.len(),
        file_start(s) == 0 || s[file_start(s) - 1] == '/',
        forall|k: int| file_start(s) <= k < s.len() ==> s[k] != '/',
        last_dot(s) matches Some(i) ==> file_start(s) <= i < s.len() && s[i] == '.' && forall|k: int|
            i < k < s.len() ==> s[k] != '/',
    decreases s.len(),
{
    if s.len() > 0 && s.last() != '/' {
        let p = s.drop_last();
        lemma_file_start(p);
        assert forall|k: int| file_start(s) <= k < s.len() implies s[k] != '/' by {
            if k < p.len() {
                assert(p[k] == s[k]);
            }
        }
        if file_start(p) > 0 {
            assert(p[file_start(p) - 1] == s[file_start(p) - 1]);
        }
        if s.last() != '.' {
            if let Some(i) = last_dot(p) {
                assert(p[i] == s[i]);
                assert forall|k: int| i < k < s.len() implies s[k] != '/' by {
                    if k < p.len() {
                        assert(p[k] == s[k]);
                    }
                }
            }
        }
    }
}

proof fn lemma_decimal_has_no_slash(n: nat)
    ensures
        forall|k: int| 0 <= k < decimal(n).len() ==> decimal(n)[k] != '/',
    decreases n,
{
    if n >= 10 {
        lemma_decimal_has_no_slash(n / 10);
        let d = decimal(n / 10);
        assert forall|k: int| 0 <= k < decimal(n).len() implies decimal(n)[k] != '/' by {
            if k < d.len() {
                assert(decimal(n)[k] == d[k]);
            }
        }
    }
}

/// Every capture is written into the base path's own directory: the path
/// keeps the base's directory part unchanged, and the index only ever goes
/// into the file name, which holds no '/'.
pub proof fn lemma_shot_path_in_base_directory(base: Seq<char>, index: nat)
    ensures
        shot_path_view(base, index).len() >= file_start(base),
        shot_path_view(base, index).take(file_start(base)) == base.take(file_start(base)),
        forall|k: int|
            file_start(base) <= k < shot_path_view(base, index).len() ==> #[trigger] shot_path_view(
                base,
                index,
            )[k] != '/',
{
    lemma_file_start(base);
    lemma_decimal_has_no_slash(index);
    reveal_strlit("_");
    reveal_strlit(".");
    reveal_strlit("png");
    let f = file_start(base);
    let (stem, ext) = split_base(base);
    let dec = decimal(index);
    let p = shot_path_view(base, index);
    assert(p =~= stem + "_"@ + dec + "."@ + ext);
    assert(stem.len() >= f);
    assert(forall|k: int| f <= k < stem.len() ==> stem[k] != '/');
    assert(forall|k: int| 0 <= k < ext.len() ==> ext[k] != '/');
    assert(p.take(f) =~= base.take(f));
    assert forall|k: int| f <= k < p.len() implies #[trigger] p[k] != '/' by {
        let a = stem.len() as int;
        if k < a {
            assert(p[k] == stem[k]);
        } else if k == a {
            assert(p[k] == '_');
        } else if k < a + 1 + dec.len() {
            assert(p[k] == dec[k - a - 1]);
        } else if k == a + 1 + dec.len() {
            assert(p[k] == '.');
        } else {
            assert(p[k] == ext[k - a - 2 - dec.len()]);
        }
    }
}

/// The single-character text of digit `d`.
fn digit_text(d: usize) -> (s: &'static str)
    requires
        d < 10,
    ensures
        s@ == seq![digit_char(d as nat)],
{
    proof {
        reveal_strlit("0");
        reveal_strlit("1");
        reveal_strlit("2");
        reveal_strlit("3");
        reveal_strlit("4");
        reveal_strlit("5");
        reveal_strlit("6");
        reveal_strlit("7");
        reveal_strlit("8");
        reveal_strlit("9");
    }
    let s = if d == 0 {
        "0"
    } else if d == 1 {
        "1"
    } else if d == 2 {
        "2"
    } else if d == 3 {
        "3"
    } else if d == 4 {
        "4"
    } else if d == 5 {
        "5"
    } else if d == 6 {
        "6"
    } else if d == 7 {
        "7"
    } else if d == 8 {
        "8"
    } else {
        "9"
    };
    assert(s@ =~= seq![digit_char(d as nat)]);
    s
}

/// Append the decimal representation of `n` to `out`.
fn push_decimal(out: &mut String, n: usize)
    ensures
        final(out)@ == old(out)@ + decimal(n as nat),
    decreases n,
{
    if n < 10 {
        out.append(digit_text(n));
    } else {
        push_decimal(out, n / 10);
        out.append(digit_text(n % 10));
        assert(decimal(n as nat) =~= decimal((n / 10) as nat) + seq![digit_char((n % 10) as nat)]);
    }
}

/// The file that capture number `index` is written to: the base path with
/// `_{index}` inserted before the extension of its file name, or
/// `{base}_{index}.png` when the file name has no '.'.
pub fn shot_path(base: &str, index: usize) -> (path: String)
    ensures
        path@ == shot_path_view(base@, index as nat),
{
    let len = base.unicode_len();
    let mut i: usize = len;
    let mut dot: Option<usize> = None;
    while i > 0
        invariant_except_break
            dot is None,
        invariant
            len == base@.len(),
            i <= len,
            forall|k: int| i <= k < len ==> base@[k] != '.' && base@[k] != '/',
        ensures
            i <= len,
            forall|k: int| i <= k < len ==> base@[k] != '.' && base@[k] != '/',
            dot matches Some(d) ==> d + 1 == i && base@[d as int] == '.',
            dot is None ==> i == 0 || base@[i - 1] == '/',
        decreases i,
    {
        let c = base.get_char(i - 1);
        if c == '.' {
            dot = Some(i - 1);
            break;
        }
        if c == '/' {
            break;
        }
        i = i - 1;
    }
    let ghost s = base@;
    let mut path;
    match dot {
        Some(d) => {
            proof {
                lemma_last_dot_found(s, d as int);
            }
            let stem = base.substring_char(0, d);
            let ext = base.substring_char(d + 1, len);
            assert(stem@ =~= s.take(d as int));
            assert(ext@ =~= s.skip(d + 1));
            path = String::from_str(stem);
            path.append("_");
            push_decimal(&mut path, index);
            path.append(".");
            path.append(ext);
        },
        None => {
            proof {
                lemma_last_dot_absent(s, i as int);
            }
            path = String::from_str(base);
            path.append("_");
            push_decimal(&mut path, index);
            path.append(".");
            path.append("png");
        },
    }
    path
}

/// Different captures are written to different files.
pub proof fn lemma_shot_paths_distinct(base: Seq<char>, i: nat, j: nat)
    requires
        i != j,
    ensures
        shot_path_view(base, i) != shot_path_view(base, j),
{
    let a = split_base(base).0 + "_"@;
    let e = "."@ + split_base(base).1;
    let di = decimal(i);
    let dj = decimal(j);
    assert(shot_path_view(base, i) =~= a + di + e);
    assert(shot_path_view(base, j) =~= a + dj + e);
    if shot_path_view(base, i) == shot_path_view(base, j) {
        let p = a + di + e;
        let q = a + dj + e;
        assert(p.len() == q.len());
        assert(di.len() == dj.len());
        assert(p.subrange(a.len() as int, (a.len() + di.len()) as int) =~= di);
        assert(q.subrange(a.len() as int, (a.len() + dj.len()) as int) =~= dj);
        lemma_decimal_injective(i, j);
    }
}

/// A scripted series of screenshots: the base path and how many captures
/// are scheduled, with the index of the next capture to take.
pub struct ShotPlan {
    base: String,
    shots: usize,
    next: usize,
}

/// The mathematical content of a [`ShotPlan`].
pub ghost struct ShotPlanView {
    pub base: Seq<char>,
    pub shots: nat,
    pub next: nat,
}

impl View for ShotPlan {
    type V = ShotPlanView;

    closed spec fn view(&self) -> ShotPlanView {
        ShotPlanView { base: self.base@, shots: self.shots as nat, next: self.next as nat }
    }
}

impl ShotPlan {
    #[verifier::type_invariant]
    spec fn well_formed(self) -> bool {
        self.next <= self.shots
    }

    /// A plan of `shots` captures written next to `base`, none taken yet.
    pub fn new(base: String, shots: usize) -> (plan: ShotPlan)
        ensures
            plan@ == (ShotPlanView { base: base@, shots: shots as nat, next: 0 }),
    {
        ShotPlan { base, shots, next: 0 }
    }

    /// The index of the next capture, or `None` once every capture is taken.
    pub fn pending(&self) -> (r: Option<usize>)
        ensures
            self@.next <= self@.shots,
            r is Some <==> self@.next < self@.shots,
            r matches Some(i) ==> i == self@.next,
    {
        proof {
            use_type_invariant(self);
        }
        if self.next < self.shots {
            Some(self.next)
        } else {
            None
        }
    }

    /// Take the next capture: returns the file it is written to and moves on
    /// to the following one; `None`, with the plan unchanged, once every
    /// capture is taken.
    pub fn advance(&mut self) -> (r: Option<String>)
        ensures
            old(self)@.next < old(self)@.shots ==> r is Some && final(self)@ == (ShotPlanView {
                next: old(self)@.next + 1,
                ..old(self)@
            }),
            r matches Some(p) ==> p@ == shot_path_view(old(self)@.base, old(self)@.next),
            old(self)@.next >= old(self)@.shots ==> r is None && final(self)@ == old(self)@,
            final(self)@.next <= final(self)@.shots,
    {
        proof {
            use_type_invariant(&*self);
        }
        if self.next < self.shots {
            let path = shot_path(self.base.as_str(), self.next);
            self.next = self.next + 1;
            Some(path)
        } else {
            None
        }
    }
}

} // verus!
