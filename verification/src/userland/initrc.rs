//! The dynamic init protocol of the supervisor: `init.rc` in the initramfs
//! names, line by line, the native drivers to launch (`driver:NAME`) and the
//! WebAssembly application to run (`app:NAME`). Every driver launched gets
//! its own stack, 1 MiB above the previous one.
use vstd::prelude::*;
use vstd::string::StrSliceExecFns;
use vstd::utf8::{decode_utf8, valid_utf8};
use crate::task::elf::ElfError;
use crate::userland::elf::{ElfImage, LoadSegment, load, user_load};
use crate::userland::marshal::{DRIVER_STACK_BASE, DRIVER_STACK_PAGES, DRIVER_STACK_STRIDE};
use crate::userland::tar::{Object, str_from_utf8};

verus! {

/// The lines of `t` from index `i` on, the current line having started at
/// `start`: lines end at a `\n`, which is dropped together with a `\r`
/// just before it; a last line without a `\n` is kept as it is, and a text
/// that ends with `\n` has no empty last line.
pub open spec fn lines_from(t: Seq<char>, start: nat, i: nat) -> Seq<Seq<char>>
    decreases t.len() - i,
{
    if i >= t.len() {
        if start < t.len() {
            seq![t.subrange(start as int, t.len() as int)]
        } else {
            seq![]
        }
    } else if t[i as int] == '\n' {
        let line = t.subrange(start as int, i as int);
        let line = if line.len() > 0 && line.last() == '\r' {
            line.drop_last()
        } else {
            line
        };
        seq![line] + lines_from(t, i + 1, i + 1)
    } else {
        lines_from(t, start, i + 1)
    }
}

/// The lines of a text as `str::lines` splits them.
pub open spec fn text_lines(text: Seq<char>) -> Seq<Seq<char>> {
    lines_from(text, 0, 0)
}

/// Whether `c` has the Unicode property White_Space.
pub open spec fn is_white_space(c: char) -> bool {
    ||| '\u{9}' <= c <= '\u{D}'
    ||| c == ' '
    ||| c == '\u{85}'
    ||| c == '\u{A0}'
    ||| c == '\u{1680}'
    ||| '\u{2000}' <= c <= '\u{200A}'
    ||| c == '\u{2028}'
    ||| c == '\u{2029}'
    ||| c == '\u{202F}'
    ||| c == '\u{205F}'
    ||| c == '\u{3000}'
}

/// `s` without its leading whitespace.
pub open spec fn trim_start(s: Seq<char>) -> Seq<char>
    decreases s.len(),
{
    if s.len() > 0 && is_white_space(s[0]) {
        trim_start(s.drop_first())
    } else {
        s
    }
}

/// `s` without its trailing whitespace.
pub open spec fn trim_end(s: Seq<char>) -> Seq<char>
    decreases s.len(),
{
    if s.len() > 0 && is_white_space(s.last()) {
        trim_end(s.drop_last())
    } else {
        s
    }
}

/// A line as `str::trim` trims it: without leading and trailing whitespace.
pub open spec fn trimmed(line: Seq<char>) -> Seq<char> {
    trim_end(trim_start(line))
}

/// The lines of `text`, split as `text_lines` describes.
fn lines_of(text: &'static str) -> (r: Vec<&'static str>)
    ensures
        r@.len() == text_lines(text@).len(),
        forall|i: int| 0 <= i < r@.len() ==> (#[trigger] r@[i])@ == text_lines(text@)[i],
{
    let ghost t = text@;
    let n = text.unicode_len();
    let mut out: Vec<&'static str> = Vec::new();
    let mut start: usize = 0;
    let mut i: usize = 0;
    while i < n
        invariant
            t == text@,
            n == t.len(),
            start <= i <= n,
            out@.map_values(|l: &'static str| l@) + lines_from(t, start as nat, i as nat) == text_lines(t),
        decreases n - i,
    {
        let ghost before = out@.map_values(|l: &'static str| l@);
        if text.get_char(i) == '\n' {
            let mut end = i;
            if end > start && text.get_char(end - 1) == '\r' {
                end = end - 1;
            }
            let line = text.substring_char(start, end);
            proof {
                let full = t.subrange(start as int, i as int);
                if i > start && t[i - 1] == '\r' {
                    assert(full.drop_last() =~= t.subrange(start as int, end as int));
                } else {
                    assert(full =~= t.subrange(start as int, end as int));
                }
            }
            out.push(line);
            proof {
                assert(out@.map_values(|l: &'static str| l@) =~= before.push(line@));
            }
            start = i + 1;
        }
        i += 1;
    }
    let ghost before = out@.map_values(|l: &'static str| l@);
    if start < n {
        let line = text.substring_char(start, n);
        out.push(line);
        proof {
            assert(out@.map_values(|l: &'static str| l@) =~= before.push(line@));
        }
    }
    proof {
        let views = out@.map_values(|l: &'static str| l@);
        assert(views =~= text_lines(t));
        assert forall|k: int| 0 <= k < out@.len() implies (#[trigger] out@[k])@ == text_lines(t)[k] by {
            assert(views[k] == out@[k]@);
        }
    }
    out
}

/// Whether `c` has the Unicode property White_Space.
fn white_space(c: char) -> (r: bool)
    ensures
        r == is_white_space(c),
{
    ('\u{9}' <= c && c <= '\u{D}') || c == ' ' || c == '\u{85}' || c == '\u{A0}' || c == '\u{1680}' || (
    '\u{2000}' <= c && c <= '\u{200A}') || c == '\u{2028}' || c == '\u{2029}' || c == '\u{202F}' || c
        == '\u{205F}' || c == '\u{3000}'
}

proof fn lemma_trim_start(s: Seq<char>, i: int)
    requires
        0 <= i <= s.len(),
        forall|k: int| 0 <= k < i ==> is_white_space(#[trigger] s[k]),
        i == s.len() || !is_white_space(s[i]),
    ensures
        trim_start(s) == s.subrange(i, s.len() as int),
    decreases i,
{
    if i > 0 {
        let d = s.drop_first();
        assert forall|k: int| 0 <= k < i - 1 implies is_white_space(#[trigger] d[k]) by {
            assert(d[k] == s[k + 1]);
        }
        lemma_trim_start(d, i - 1);
        assert(d.subrange(i - 1, d.len() as int) =~= s.subrange(i, s.len() as int));
    } else {
        assert(s.subrange(0, s.len() as int) =~= s);
    }
}

proof fn lemma_trim_end(s: Seq<char>, j: int)
    requires
        0 <= j <= s.len(),
        forall|k: int| j <= k < s.len() ==> is_white_space(#[trigger] s[k]),
        j == 0 || !is_white_space(s[j - 1]),
    ensures
        trim_end(s) == s.subrange(0, j),
    decreases s.len() - j,
{
    if j < s.len() {
        let d = s.drop_last();
        assert forall|k: int| j <= k < d.len() implies is_white_space(#[trigger] d[k]) by {
            assert(d[k] == s[k]);
        }
        lemma_trim_end(d, j);
        assert(d.subrange(0, j) =~= s.subrange(0, j));
    } else {
        assert(s.subrange(0, j) =~= s);
    }
}

/// `line` without leading and trailing whitespace, as `trimmed` describes.
fn trim_str(line: &'static str) -> (r: &'static str)
    ensures
        r@ == trimmed(line@),
{
    let ghost s = line@;
    let n = line.unicode_len();
    let mut i: usize = 0;
    while i < n && white_space(line.get_char(i))
        invariant
            s == line@,
            n == s.len(),
            i <= n,
            forall|k: int| 0 <= k < i ==> is_white_space(#[trigger] s[k]),
        decreases n - i,
    {
        i += 1;
    }
    let mut j: usize = n;
    while j > i && white_space(line.get_char(j - 1))
        invariant
            s == line@,
            n == s.len(),
            i <= j <= n,
            forall|k: int| j <= k < n ==> is_white_space(#[trigger] s[k]),
        decreases j - i,
    {
        j -= 1;
    }
    proof {
        lemma_trim_start(s, i as int);
        let t = s.subrange(i as int, n as int);
        assert forall|k: int| j - i <= k < t.len() implies is_white_space(#[trigger] t[k]) by {
            assert(t[k] == s[k + i]);
        }
        if j > i {
            assert(t[j - i - 1] == s[j - 1]);
        }
        lemma_trim_end(t, (j - i) as int);
        assert(t.subrange(0, (j - i) as int) =~= s.subrange(i as int, j as int));
    }
    line.substring_char(i, j)
}

/// Whether `prefix` is a prefix of `s`.
fn str_starts_with(s: &str, prefix: &str) -> (r: bool)
    ensures
        r == (prefix@.len() <= s@.len() && s@.subrange(0, prefix@.len() as int) == prefix@),
{
    let n = prefix.unicode_len();
    let m = s.unicode_len();
    if n > m {
        return false;
    }
    let mut i: usize = 0;
    while i < n
        invariant
            n == prefix@.len(),
            m == s@.len(),
            n <= m,
            0 <= i <= n,
            forall|j: int| 0 <= j < i ==> s@[j] == prefix@[j],
        decreases n - i,
    {
        if s.get_char(i) != prefix.get_char(i) {
            assert(s@.subrange(0, n as int)[i as int] != prefix@[i as int]);
            return false;
        }
        i += 1;
    }
    assert(s@.subrange(0, n as int) =~= prefix@);
    true
}

/// Whether two strings hold the same characters.
fn str_eq(a: &str, b: &str) -> (r: bool)
    ensures
        r == (a@ == b@),
{
    let n = a.unicode_len();
    if n != b.unicode_len() {
        return false;
    }
    let mut i: usize = 0;
    while i < n
        invariant
            n == a@.len(),
            n == b@.len(),
            0 <= i <= n,
            forall|j: int| 0 <= j < i ==> a@[j] == b@[j],
        decreases n - i,
    {
        if a.get_char(i) != b.get_char(i) {
            return false;
        }
        i += 1;
    }
    assert(a@ =~= b@);
    true
}

/// The characters of `init.rc`.
pub open spec fn init_rc_name() -> Seq<char> {
    seq!['i', 'n', 'i', 't', '.', 'r', 'c']
}

/// The prefix of driver lines.
pub open spec fn driver_prefix() -> Seq<char> {
    seq!['d', 'r', 'i', 'v', 'e', 'r', ':']
}

/// The prefix of application lines.
pub open spec fn app_prefix() -> Seq<char> {
    seq!['a', 'p', 'p', ':']
}

/// One line of `init.rc` that names something to start.
pub enum Directive {
    Driver(Seq<char>),
    App(Seq<char>),
}

/// What a trimmed line asks for: a driver (`driver:NAME`), an application
/// (`app:NAME`), or nothing.
pub open spec fn directive_of(t: Seq<char>) -> Option<Directive> {
    if t.len() >= 7 && t.subrange(0, 7) == driver_prefix() {
        Some(Directive::Driver(t.subrange(7, t.len() as int)))
    } else if t.len() >= 4 && t.subrange(0, 4) == app_prefix() {
        Some(Directive::App(t.subrange(4, t.len() as int)))
    } else {
        None
    }
}

/// The directives of the first `n` lines.
pub open spec fn line_directives(lines: Seq<Seq<char>>, n: nat) -> Seq<Directive>
    decreases n,
{
    if n == 0 {
        seq![]
    } else {
        line_directives(lines, (n - 1) as nat) + match directive_of(trimmed(lines[n - 1])) {
            Some(d) => seq![d],
            None => seq![],
        }
    }
}

/// The directives a file contributes: those of its lines if it is `init.rc`
/// and valid UTF-8, none otherwise.
pub open spec fn object_directives(o: Object) -> Seq<Directive> {
    if o.name@ == init_rc_name() && valid_utf8(o.data@) {
        let lines = text_lines(decode_utf8(o.data@));
        line_directives(lines, lines.len())
    } else {
        seq![]
    }
}

/// The directives of the first `n` files of the archive, in order.
pub open spec fn all_directives(objs: Seq<Object>, n: nat) -> Seq<Directive>
    decreases n,
{
    if n == 0 {
        seq![]
    } else {
        all_directives(objs, (n - 1) as nat) + object_directives(objs[n - 1])
    }
}

/// A request to start the file at an index of the archive.
pub enum InitEvent {
    Driver(nat),
    App(nat),
}

/// The requests a directive makes of the first `n` files: one for each file
/// whose name is the directive's name.
pub open spec fn directive_events(objs: Seq<Object>, d: Directive, n: nat) -> Seq<InitEvent>
    decreases n,
{
    if n == 0 {
        seq![]
    } else {
        let rest = directive_events(objs, d, (n - 1) as nat);
        match d {
            Directive::Driver(name) => if objs[n - 1].name@ == name {
                rest.push(InitEvent::Driver((n - 1) as nat))
            } else {
                rest
            },
            Directive::App(name) => if objs[n - 1].name@ == name {
                rest.push(InitEvent::App((n - 1) as nat))
            } else {
                rest
            },
        }
    }
}

/// The requests of the first `n` directives, in order.
pub open spec fn all_events(objs: Seq<Object>, ds: Seq<Directive>, n: nat) -> Seq<InitEvent>
    decreases n,
{
    if n == 0 {
        seq![]
    } else {
        all_events(objs, ds, (n - 1) as nat) + directive_events(objs, ds[n - 1], objs.len())
    }
}

/// What the supervisor does for one request.
pub enum InitStep {
    /// Launch the driver in file `object`: load `segments`, give it a stack at
    /// `stack_base`, spawn it at `entry`.
    Launch { object: nat, entry: u64, segments: Seq<LoadSegment>, stack_base: u64 },
    /// The driver's image is malformed beyond what the loader tolerates.
    Fault { object: nat, error: ElfError },
    /// Run the WebAssembly application in file `object`.
    SelectApp { object: nat },
}

/// The stack base of the driver launched after `launched` others: 1 MiB
/// above the previous one (modulo 2^64).
pub open spec fn driver_stack_at(launched: nat) -> u64 {
    ((DRIVER_STACK_BASE + launched * DRIVER_STACK_STRIDE) % 0x1_0000_0000_0000_0000) as u64
}

/// The steps for the first `n` requests, and the number of drivers launched.
/// A driver whose file is not an ELF image (too short, or without the magic
/// number) is passed over.
pub open spec fn init_steps(objs: Seq<Object>, evs: Seq<InitEvent>, n: nat) -> (Seq<InitStep>, nat)
    decreases n,
{
    if n == 0 {
        (seq![], 0)
    } else {
        let (steps, launched) = init_steps(objs, evs, (n - 1) as nat);
        match evs[n - 1] {
            InitEvent::App(j) => (steps.push(InitStep::SelectApp { object: j }), launched),
            InitEvent::Driver(j) => match user_load(objs[j as int].data@) {
                Ok((entry, segments)) => (
                    steps.push(
                        InitStep::Launch {
                            object: j,
                            entry,
                            segments,
                            stack_base: driver_stack_at(launched),
                        },
                    ),
                    launched + 1,
                ),
                Err(ElfError::TooShort) => (steps, launched),
                Err(ElfError::BadMagic) => (steps, launched),
                Err(e) => (steps.push(InitStep::Fault { object: j, error: e }), launched),
            },
        }
    }
}

/// The steps of the init protocol for an archive.
pub open spec fn init_plan(objs: Seq<Object>) -> Seq<InitStep> {
    init_run(objs).0
}

/// The steps of the init protocol for an archive, and the number of drivers
/// it launches.
pub open spec fn init_run(objs: Seq<Object>) -> (Seq<InitStep>, nat) {
    let ds = all_directives(objs, objs.len());
    let evs = all_events(objs, ds, ds.len());
    init_steps(objs, evs, evs.len())
}

/// The stack base of a launch step.
pub open spec fn step_stack(s: InitStep) -> u64 {
    match s {
        InitStep::Launch { stack_base, .. } => stack_base,
        _ => 0,
    }
}

/// The number of launch steps among the first `m` steps.
pub open spec fn launches_in(steps: Seq<InitStep>, m: nat) -> nat
    decreases m,
{
    if m == 0 {
        0
    } else {
        launches_in(steps, (m - 1) as nat) + if steps[m - 1] is Launch {
            1nat
        } else {
            0nat
        }
    }
}

proof fn lemma_launches_in_push(steps: Seq<InitStep>, x: InitStep, m: nat)
    requires
        m <= steps.len(),
    ensures
        launches_in(steps.push(x), m) == launches_in(steps, m),
    decreases m,
{
    if m > 0 {
        lemma_launches_in_push(steps, x, (m - 1) as nat);
    }
}

proof fn lemma_launches_in_grows(steps: Seq<InitStep>, m1: nat, m2: nat)
    requires
        m1 < m2 <= steps.len(),
        steps[m1 as int] is Launch,
    ensures
        launches_in(steps, m1) < launches_in(steps, m2),
    decreases m2,
{
    if m2 > m1 + 1 {
        lemma_launches_in_grows(steps, m1, (m2 - 1) as nat);
    }
}

/// Every launch step among the first `n` requests gets the stack of its
/// ordinal among the launches, and the launch counter counts them.
proof fn lemma_launch_stacks(objs: Seq<Object>, evs: Seq<InitEvent>, n: nat)
    requires
        n <= evs.len(),
    ensures
        ({
            let (steps, launched) = init_steps(objs, evs, n);
            &&& launches_in(steps, steps.len()) == launched
            &&& forall|m: int|
                0 <= m < steps.len() && #[trigger] steps[m] is Launch ==> step_stack(steps[m])
                    == driver_stack_at(launches_in(steps, m as nat))
        }),
    decreases n,
{
    if n > 0 {
        lemma_launch_stacks(objs, evs, (n - 1) as nat);
        let (prev, launched) = init_steps(objs, evs, (n - 1) as nat);
        let (steps, _) = init_steps(objs, evs, n);
        if steps.len() > prev.len() {
            let x = steps[prev.len() as int];
            assert(steps == prev.push(x));
            lemma_launches_in_push(prev, x, prev.len());
            assert forall|m: int| 0 <= m < steps.len() && #[trigger] steps[m] is Launch implies step_stack(
                steps[m],
            ) == driver_stack_at(launches_in(steps, m as nat)) by {
                if m < prev.len() {
                    lemma_launches_in_push(prev, x, m as nat);
                    assert(steps[m] == prev[m]);
                }
            }
        } else {
            assert(steps == prev);
        }
    }
}

/// The stacks of two different launch ordinals below 2^44 share no address,
/// counting addresses modulo 2^64.
proof fn lemma_stack_ordinals_apart(c1: nat, c2: nat, t1: int, t2: int)
    requires
        c1 < c2 < 0x1000_0000_0000,
        0 <= t1 < DRIVER_STACK_PAGES * 4096,
        0 <= t2 < DRIVER_STACK_PAGES * 4096,
    ensures
        (driver_stack_at(c1) + t1) % 0x1_0000_0000_0000_0000 != (driver_stack_at(c2) + t2)
            % 0x1_0000_0000_0000_0000,
{
    let m: int = 0x1_0000_0000_0000_0000;
    let x1: int = DRIVER_STACK_BASE + c1 * DRIVER_STACK_STRIDE;
    let x2: int = DRIVER_STACK_BASE + c2 * DRIVER_STACK_STRIDE;
    vstd::arithmetic::div_mod::lemma_add_mod_noop(x1, t1, m);
    vstd::arithmetic::div_mod::lemma_add_mod_noop(x2, t2, m);
    vstd::arithmetic::div_mod::lemma_mod_twice(x1 + t1, m);
    vstd::arithmetic::div_mod::lemma_mod_twice(x2 + t2, m);
    vstd::arithmetic::div_mod::lemma_small_mod(t1 as nat, m as nat);
    vstd::arithmetic::div_mod::lemma_small_mod(t2 as nat, m as nat);
    let p = x1 + t1;
    let q = x2 + t2;
    let k: int = c2 - c1;
    assert(q - p == k * 0x10_0000 + t2 - t1) by (nonlinear_arith)
        requires
            p == 0x6000_0000_0000 + c1 * 0x10_0000 + t1,
            q == 0x6000_0000_0000 + c2 * 0x10_0000 + t2,
            k == c2 - c1,
    ;
    assert(0 < q - p < m) by (nonlinear_arith)
        requires
            q - p == k * 0x10_0000 + t2 - t1,
            1 <= k < 0x1000_0000_0000,
            0 <= t1 < 0x1_0000,
            0 <= t2 < 0x1_0000,
            m == 0x1_0000_0000_0000_0000,
    ;
    if p % m == q % m {
        vstd::arithmetic::div_mod::lemma_fundamental_div_mod(p, m);
        vstd::arithmetic::div_mod::lemma_fundamental_div_mod(q, m);
        let j = q / m - p / m;
        assert(q - p == m * j) by (nonlinear_arith)
            requires
                p == m * (p / m) + p % m,
                q == m * (q / m) + q % m,
                p % m == q % m,
                j == q / m - p / m,
        ;
        assert(false) by (nonlinear_arith)
            requires
                q - p == m * j,
                0 < q - p < m,
                m > 0,
        ;
    }
}

/// Each driver that the init protocol launches gets a stack of its own: no
/// address (taken modulo 2^64) lies in the 16-page stacks of two different
/// launched drivers, as long as fewer than 2^44 + 1 drivers are launched.
pub proof fn lemma_driver_stacks_disjoint(objs: Seq<Object>, i: int, j: int, t1: int, t2: int)
    requires
        0 <= i < j < init_plan(objs).len(),
        init_plan(objs)[i] is Launch,
        init_plan(objs)[j] is Launch,
        0 <= t1 < DRIVER_STACK_PAGES * 4096,
        0 <= t2 < DRIVER_STACK_PAGES * 4096,
        init_run(objs).1 <= 0x1000_0000_0000,
    ensures
        (step_stack(init_plan(objs)[i]) + t1) % 0x1_0000_0000_0000_0000 != (step_stack(init_plan(objs)[j]) + t2)
            % 0x1_0000_0000_0000_0000,
{
    let ds = all_directives(objs, objs.len());
    let evs = all_events(objs, ds, ds.len());
    let steps = init_plan(objs);
    lemma_launch_stacks(objs, evs, evs.len());
    lemma_launches_in_grows(steps, i as nat, j as nat);
    lemma_launches_in_grows(steps, j as nat, steps.len());
    let c1 = launches_in(steps, i as nat);
    let c2 = launches_in(steps, j as nat);
    assert(step_stack(steps[i]) == driver_stack_at(c1));
    assert(step_stack(steps[j]) == driver_stack_at(c2));
    lemma_stack_ordinals_apart(c1, c2, t1, t2);
}

/// One step of the init protocol, as carried out.
pub enum InitAction {
    LaunchDriver { object: usize, image: ElfImage, stack_base: u64 },
    LoadFault { object: usize, error: ElfError },
    SelectApp { object: usize },
}

/// Whether an action carries out a step.
pub open spec fn action_is(a: InitAction, s: InitStep) -> bool {
    match (a, s) {
        (
            InitAction::LaunchDriver { object, image, stack_base },
            InitStep::Launch { object: o, entry, segments, stack_base: b },
        ) => object == o && image.entry == entry && image.segments@ == segments && stack_base == b,
        (InitAction::LoadFault { object, error }, InitStep::Fault { object: o, error: e }) => object == o
            && error == e,
        (InitAction::SelectApp { object }, InitStep::SelectApp { object: o }) => object == o,
        _ => false,
    }
}

/// A directive as found in a line.
pub struct FoundDirective {
    /// A driver (`driver:NAME`) rather than an application (`app:NAME`).
    pub is_driver: bool,
    /// The name of the file to start.
    pub name: &'static str,
}

/// Whether a directive as found holds the directive `d`.
pub open spec fn found_is(f: FoundDirective, d: Directive) -> bool {
    match d {
        Directive::Driver(n) => f.is_driver && f.name@ == n,
        Directive::App(n) => !f.is_driver && f.name@ == n,
    }
}

/// The directive of one trimmed line of `init.rc`: `driver:NAME` or
/// `app:NAME`, `None` for any other line.
pub fn parse_line(t: &'static str) -> (r: Option<FoundDirective>)
    ensures
        directive_of(t@) is None ==> r is None,
        directive_of(t@) matches Some(d) ==> r matches Some(f) && found_is(f, d),
{
    if str_starts_with(t, "driver:") {
        proof {
            reveal_strlit("driver:");
            assert("driver:"@ =~= driver_prefix());
        }
        let n = t.unicode_len();
        let name = t.substring_char(7, n);
        Some(FoundDirective { is_driver: true, name })
    } else if str_starts_with(t, "app:") {
        proof {
            reveal_strlit("driver:");
            reveal_strlit("app:");
            assert("driver:"@ =~= driver_prefix());
            assert("app:"@ =~= app_prefix());
        }
        let n = t.unicode_len();
        let name = t.substring_char(4, n);
        Some(FoundDirective { is_driver: false, name })
    } else {
        proof {
            reveal_strlit("driver:");
            reveal_strlit("app:");
            assert("driver:"@ =~= driver_prefix());
            assert("app:"@ =~= app_prefix());
        }
        None
    }
}

/// The directives of all `init.rc` files of the archive, in order.
fn collect_directives(objects: &Vec<Object>) -> (r: Vec<FoundDirective>)
    ensures
        r@.len() == all_directives(objects@, objects@.len()).len(),
        forall|k: int| 0 <= k < r@.len() ==> found_is(#[trigger] r@[k], all_directives(objects@, objects@.len())[k]),
{
    let mut out: Vec<FoundDirective> = Vec::new();
    let mut i: usize = 0;
    while i < objects.len()
        invariant
            0 <= i <= objects@.len(),
            out@.len() == all_directives(objects@, i as nat).len(),
            forall|k: int| 0 <= k < out@.len() ==> found_is(#[trigger] out@[k], all_directives(objects@, i as nat)[k]),
        decreases objects.len() - i,
    {
        let ghost before = out@;
        let ghost prev = all_directives(objects@, i as nat);
        let object = &objects[i];
        proof {
            reveal_strlit("init.rc");
            assert("init.rc"@ =~= init_rc_name());
        }
        if str_eq(object.name.as_str(), "init.rc") {
            if let Some(config) = str_from_utf8(object.data) {
                proof {
                    vstd::utf8::encode_utf8_decode_utf8(config@);
                    assert(decode_utf8(object.data@) == config@);
                }
                let lines = lines_of(config);
                let ghost tl = text_lines(config@);
                let mut k: usize = 0;
                while k < lines.len()
                    invariant
                        0 <= k <= lines@.len(),
                        lines@.len() == tl.len(),
                        forall|m: int| 0 <= m < lines@.len() ==> (#[trigger] lines@[m])@ == tl[m],
                        prev == all_directives(objects@, i as nat),
                        before.len() == prev.len(),
                        forall|m: int| 0 <= m < before.len() ==> found_is(#[trigger] before[m], prev[m]),
                        out@.len() == prev.len() + line_directives(tl, k as nat).len(),
                        forall|m: int| 0 <= m < before.len() ==> out@[m] == before[m],
                        forall|m: int|
                            0 <= m < line_directives(tl, k as nat).len() ==> found_is(
                                #[trigger] out@[prev.len() + m],
                                line_directives(tl, k as nat)[m],
                            ),
                    decreases lines.len() - k,
                {
                    let t = trim_str(lines[k]);
                    let ghost ld = line_directives(tl, k as nat);
                    match parse_line(t) {
                        Some(f) => {
                            out.push(f);
                            assert(line_directives(tl, (k + 1) as nat) == ld.push(
                                directive_of(trimmed(tl[k as int])).unwrap(),
                            ));
                        },
                        None => {
                            assert(line_directives(tl, (k + 1) as nat) =~= ld);
                        },
                    }
                    k += 1;
                }
                proof {
                    let nxt = all_directives(objects@, (i + 1) as nat);
                    let ld = line_directives(tl, tl.len());
                    assert(nxt =~= prev + ld);
                    assert forall|m: int| 0 <= m < out@.len() implies found_is(#[trigger] out@[m], nxt[m]) by {
                        if m < prev.len() {
                            assert(out@[m] == before[m]);
                        } else {
                            let q = m - prev.len();
                            assert(out@[prev.len() + q] == out@[m]);
                            assert(nxt[m] == ld[q]);
                        }
                    }
                }
            } else {
                assert(all_directives(objects@, (i + 1) as nat) =~= prev);
            }
        } else {
            assert(all_directives(objects@, (i + 1) as nat) =~= prev);
        }
        i += 1;
    }
    out
}

/// The requests of all directives, in order.
fn collect_events(objects: &Vec<Object>, ds: &Vec<FoundDirective>, Ghost(sd): Ghost<Seq<Directive>>) -> (r: Vec<(bool, usize)>)
    requires
        ds@.len() == sd.len(),
        forall|k: int| 0 <= k < ds@.len() ==> found_is(#[trigger] ds@[k], sd[k]),
    ensures
        r@.len() == all_events(objects@, sd, sd.len()).len(),
        forall|k: int|
            0 <= k < r@.len() ==> match all_events(objects@, sd, sd.len())[k] {
                InitEvent::Driver(j) => (#[trigger] r@[k]).0 && r@[k].1 == j,
                InitEvent::App(j) => !(#[trigger] r@[k]).0 && r@[k].1 == j,
            },
        forall|k: int| 0 <= k < r@.len() ==> (#[trigger] r@[k]).1 < objects@.len(),
{
    let mut out: Vec<(bool, usize)> = Vec::new();
    let mut d: usize = 0;
    while d < ds.len()
        invariant
            0 <= d <= ds@.len(),
            ds@.len() == sd.len(),
            forall|k: int| 0 <= k < ds@.len() ==> found_is(#[trigger] ds@[k], sd[k]),
            out@.len() == all_events(objects@, sd, d as nat).len(),
            forall|k: int| 0 <= k < out@.len() ==> (#[trigger] out@[k]).1 < objects@.len(),
            forall|k: int|
                0 <= k < out@.len() ==> match all_events(objects@, sd, d as nat)[k] {
                    InitEvent::Driver(j) => (#[trigger] out@[k]).0 && out@[k].1 == j,
                    InitEvent::App(j) => !(#[trigger] out@[k]).0 && out@[k].1 == j,
                },
        decreases ds.len() - d,
    {
        let ghost prev = all_events(objects@, sd, d as nat);
        let ghost before = out@;
        let f = &ds[d];
        let ghost dd = sd[d as int];
        assert(found_is(*f, dd));
        let mut j: usize = 0;
        while j < objects.len()
            invariant
                0 <= j <= objects@.len(),
                found_is(*f, dd),
                prev == all_events(objects@, sd, d as nat),
                before.len() == prev.len(),
                out@.len() == prev.len() + directive_events(objects@, dd, j as nat).len(),
                forall|m: int| 0 <= m < out@.len() ==> (#[trigger] out@[m]).1 < objects@.len(),
                forall|m: int| 0 <= m < before.len() ==> out@[m] == before[m],
                forall|m: int|
                    0 <= m < directive_events(objects@, dd, j as nat).len() ==> match directive_events(
                        objects@,
                        dd,
                        j as nat,
                    )[m] {
                        InitEvent::Driver(x) => (#[trigger] out@[prev.len() + m]).0 && out@[prev.len()
                            + m].1 == x,
                        InitEvent::App(x) => !(#[trigger] out@[prev.len() + m]).0 && out@[prev.len()
                            + m].1 == x,
                    },
            decreases objects.len() - j,
        {
            let ghost de = directive_events(objects@, dd, j as nat);
            if str_eq(objects[j].name.as_str(), f.name) {
                out.push((f.is_driver, j));
                assert(directive_events(objects@, dd, (j + 1) as nat) =~= de.push(
                    if f.is_driver {
                        InitEvent::Driver(j as nat)
                    } else {
                        InitEvent::App(j as nat)
                    },
                ));
            } else {
                assert(directive_events(objects@, dd, (j + 1) as nat) =~= de);
            }
            j += 1;
        }
        proof {
            assert(all_events(objects@, sd, (d + 1) as nat) =~= prev + directive_events(
                objects@,
                dd,
                objects@.len(),
            ));
            assert forall|k: int| 0 <= k < out@.len() implies match all_events(objects@, sd, (d + 1) as nat)[k] {
                InitEvent::Driver(j) => (#[trigger] out@[k]).0 && out@[k].1 == j,
                InitEvent::App(j) => !(#[trigger] out@[k]).0 && out@[k].1 == j,
            } by {
                if k < prev.len() {
                    assert(out@[k] == before[k]);
                } else {
                    let m = k - prev.len();
                    assert(out@[prev.len() + m] == out@[k]);
                }
            }
        }
        d += 1;
    }
    out
}

proof fn lemma_stack_base(n: u64)
    ensures
        vstd::wrapping::u64_specs::wrapping_add(
            DRIVER_STACK_BASE,
            vstd::wrapping::u64_specs::wrapping_mul(n, DRIVER_STACK_STRIDE),
        ) == driver_stack_at(n as nat),
{
    let m: int = 0x1_0000_0000_0000_0000;
    let b: int = DRIVER_STACK_BASE as int;
    let p: int = (n as int) * (DRIVER_STACK_STRIDE as int);
    vstd::arithmetic::div_mod::lemma_add_mod_noop_right(b, p, m);
    vstd::arithmetic::div_mod::lemma_mod_bound(p, m);
    let w = p % m;
    let x = b + w;
    if x >= m {
        vstd::arithmetic::div_mod::lemma_small_mod((x - m) as nat, m as nat);
        vstd::arithmetic::div_mod::lemma_small_mod(0, m as nat);
        vstd::arithmetic::div_mod::lemma_add_mod_noop(x - m, m, m);
        vstd::arithmetic::div_mod::lemma_mod_self_0(m);
        assert(x % m == x - m);
    } else {
        vstd::arithmetic::div_mod::lemma_small_mod(x as nat, m as nat);
    }
}

/// Plans the init protocol for the files of the initramfs: finds every
/// valid-UTF-8 `init.rc`, and for each of its lines, in order, that names a
/// driver or an application, takes every file of that name: a driver file
/// is loaded as an ELF image and given the next free stack (files that are
/// not ELF images are passed over), an application file is selected to run.
pub fn plan_init(objects: &Vec<Object>) -> (r: Vec<InitAction>)
    ensures
        r@.len() == init_plan(objects@).len(),
        forall|k: int| 0 <= k < r@.len() ==> action_is(#[trigger] r@[k], init_plan(objects@)[k]),
{
    let ds = collect_directives(objects);
    let ghost sd = all_directives(objects@, objects@.len());
    let evs = collect_events(objects, &ds, Ghost(sd));
    let ghost se = all_events(objects@, sd, sd.len());
    let mut out: Vec<InitAction> = Vec::new();
    let mut launched: u64 = 0;
    let mut e: usize = 0;
    while e < evs.len()
        invariant
            0 <= e <= evs@.len(),
            evs@.len() == se.len(),
            forall|k: int|
                0 <= k < evs@.len() ==> match se[k] {
                    InitEvent::Driver(j) => (#[trigger] evs@[k]).0 && evs@[k].1 == j,
                    InitEvent::App(j) => !(#[trigger] evs@[k]).0 && evs@[k].1 == j,
                },
            forall|k: int| 0 <= k < evs@.len() ==> (#[trigger] evs@[k]).1 < objects@.len(),
            out@.len() == init_steps(objects@, se, e as nat).0.len(),
            launched == init_steps(objects@, se, e as nat).1,
            launched <= e,
            forall|k: int| 0 <= k < out@.len() ==> action_is(#[trigger] out@[k], init_steps(objects@, se, e as nat).0[k]),
        decreases evs.len() - e,
    {
        let ghost prev = init_steps(objects@, se, e as nat);
        let ghost before = out@;
        let (is_driver, j) = evs[e];
        if is_driver {
            match load(objects[j].data) {
                Ok(image) => {
                    let stack_base = DRIVER_STACK_BASE.wrapping_add(launched.wrapping_mul(DRIVER_STACK_STRIDE));
                    proof {
                        lemma_stack_base(launched);
                    }
                    out.push(InitAction::LaunchDriver { object: j, image, stack_base });
                    launched += 1;
                },
                Err(ElfError::TooShort) => {},
                Err(ElfError::BadMagic) => {},
                Err(error) => {
                    out.push(InitAction::LoadFault { object: j, error });
                },
            }
        } else {
            out.push(InitAction::SelectApp { object: j });
        }
        proof {
            let next = init_steps(objects@, se, (e + 1) as nat);
            assert forall|k: int| 0 <= k < out@.len() implies action_is(#[trigger] out@[k], next.0[k]) by {
                if k < before.len() {
                    assert(out@[k] == before[k]);
                }
            }
        }
        e += 1;
    }
    out
}

} // verus!
