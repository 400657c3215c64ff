//! Rendering: schedule labels and GPU driver quirk detection.
//!
//! Some mobile GPU drivers need workarounds; they are recognised from the
//! adapter's name and driver string. The checks apply on Android only.

use vstd::prelude::*;

use crate::text::{
    chars_of,
    digit_run,
    digit_value,
    digits_value,
    find_from,
    is_digit,
    occurs_at,
    occurs_in,
    parse_u32,
    parse_u32_chars,
};

verus! {

/// The system sets of the default rendering schedule.
#[derive(Clone, Copy, PartialEq, Eq, Structural, Debug, Hash)]
pub enum RenderSystems {
    ExtractCommands,
    PrepareAssets,
    PrepareMeshes,
    ManageViews,
    Queue,
    QueueMeshes,
    QueueSweep,
    PhaseSort,
    Prepare,
    PrepareResources,
    PrepareResourcesCollectPhaseBuffers,
    PrepareResourcesFlush,
    PrepareBindGroups,
    Render,
    Cleanup,
    PostCleanup,
}

/// The schedule that extracts data from the main world.
#[derive(Clone, Copy, PartialEq, Eq, Structural, Debug, Hash, Default)]
pub struct ExtractSchedule;

/// The startup schedule of the render app.
#[derive(Clone, Copy, PartialEq, Eq, Structural, Debug, Hash, Default)]
pub struct RenderStartup;

/// The main render schedule.
#[derive(Clone, Copy, PartialEq, Eq, Structural, Debug, Hash, Default)]
pub struct Render;

/// A label for the rendering sub-app.
#[derive(Clone, Copy, PartialEq, Eq, Structural, Debug, Hash)]
pub struct RenderApp;

/// Label of the camera driver node of the render graph.
#[derive(Clone, Copy, PartialEq, Eq, Structural, Debug, Hash)]
pub struct CameraDriverLabel;

/// The plugin that sets up the core render pipelines.
#[derive(Clone, Copy, PartialEq, Eq, Structural, Debug, Default)]
pub struct CorePipelinePlugin;

/// What the graphics adapter reports about itself.
#[derive(Clone, PartialEq, Eq, Debug)]
pub struct RenderAdapterInfo {
    /// Adapter name.
    pub name: String,
    /// Driver description.
    pub driver_info: String,
}

/// The prefix of an Adreno adapter's name.
pub open spec fn adreno_prefix() -> Seq<char> {
    "Adreno (TM) "@
}

/// The number formed by the digits that start `s` (0 when none).
pub open spec fn leading_number(s: Seq<char>) -> nat {
    digits_value(s.take(digit_run(s) as int))
}

/// The Adreno model of an adapter: on Android, for a name that starts with
/// the Adreno prefix, the number formed by the digits that follow it (a
/// suffix such as `L` in `642L` is ignored; no digits give 0).
pub open spec fn adreno_model(name: Seq<char>, on_android: bool) -> Option<u32> {
    if on_android && name.len() >= adreno_prefix().len() && name.take(adreno_prefix().len() as int)
        == adreno_prefix() {
        Some(leading_number(name.skip(adreno_prefix().len() as int)) as u32)
    } else {
        None
    }
}

/// The Mali driver version of an adapter: on Android, for a name that
/// contains `Mali`, the number between the first `v1.r` of the driver string
/// and the first `p` after it, when that text reads as a `u32`.
pub open spec fn mali_driver_version(name: Seq<char>, driver: Seq<char>, on_android: bool) -> Option<u32> {
    if !on_android || !occurs_in(name, "Mali"@) {
        None
    } else if exists|i: int| occurs_at(driver, "v1.r"@, i) {
        let start = choose|i: int|
            occurs_at(driver, "v1.r"@, i) && forall|j: int| 0 <= j < i ==> !occurs_at(driver, "v1.r"@, j);
        if exists|k: int| start <= k < driver.len() && driver[k] == 'p' {
            let end = choose|k: int|
                start <= k < driver.len() && driver[k] == 'p' && forall|q: int|
                    start <= q < k ==> driver[q] != 'p';
            parse_u32(driver.subrange(start + 4, end))
        } else {
            None
        }
    } else {
        None
    }
}

/// The digits that start `s`, read with the same arithmetic.
fn leading_number_of(s: &Vec<char>, from: usize) -> (r: u32)
    requires
        from <= s@.len(),
        leading_number(s@.skip(from as int)) <= u32::MAX,
    ensures
        r == leading_number(s@.skip(from as int)),
{
    let ghost t = s@.skip(from as int);
    let mut acc: u32 = 0;
    let mut i: usize = from;
    while i < s.len() && '0' <= s[i] && s[i] <= '9'
        invariant
            from <= i <= s@.len(),
            t == s@.skip(from as int),
            forall|k: int| from <= k < i ==> is_digit(s@[k]),
            acc == digits_value(t.take(i - from)),
            leading_number(t) <= u32::MAX,
        decreases s@.len() - i,
    {
        proof {
            lemma_digit_run_at_least(t, i - from + 1);
            lemma_digits_prefix_le(t.take(digit_run(t) as int), i - from + 1);
            assert(t.take(digit_run(t) as int).take(i - from + 1) =~= t.take(i - from + 1));
            assert(t.take(i - from + 1).drop_last() =~= t.take(i - from));
        }
        acc = acc * 10 + (s[i] as u32 - '0' as u32);
        i = i + 1;
    }
    proof {
        lemma_digit_run_exact(t, i - from);
    }
    acc
}

/// A prefix of digits makes the digit run at least that long, and the run
/// never exceeds the string.
proof fn lemma_digit_run_at_least(t: Seq<char>, n: int)
    requires
        0 <= n <= t.len(),
        forall|k: int| 0 <= k < n ==> is_digit(t[k]),
    ensures
        digit_run(t) >= n,
        digit_run(t) <= t.len(),
    decreases t.len(),
{
    if t.len() > 0 {
        if n > 0 {
            lemma_digit_run_at_least(t.drop_first(), n - 1);
        } else {
            lemma_digit_run_at_least(t.drop_first(), 0);
        }
    }
}

/// A run of digits ended by a non-digit (or the end) is the digit run.
proof fn lemma_digit_run_exact(t: Seq<char>, n: int)
    requires
        0 <= n <= t.len(),
        forall|k: int| 0 <= k < n ==> is_digit(t[k]),
        n == t.len() || !is_digit(t[n]),
    ensures
        digit_run(t) == n,
    decreases n,
{
    if n > 0 {
        lemma_digit_run_exact(t.drop_first(), n - 1);
    }
}

/// A prefix of a digit string is worth no more than the whole.
proof fn lemma_digits_prefix_le(d: Seq<char>, n: int)
    requires
        0 <= n <= d.len(),
    ensures
        digits_value(d.take(n)) <= digits_value(d),
    decreases d.len() - n,
{
    if n < d.len() {
        lemma_digits_prefix_le(d, n + 1);
        assert(d.take(n + 1).drop_last() =~= d.take(n));
    } else {
        assert(d.take(n) =~= d);
    }
}

/// Whether the Adreno model of `info` can be read without overflowing 32
/// bits (always, unless the digits after the prefix form a larger number).
pub fn adreno_model_fits(adapter_info: &RenderAdapterInfo) -> (r: bool)
    ensures
        r == (adapter_info.name@.len() >= adreno_prefix().len() && adapter_info.name@.take(
            adreno_prefix().len() as int,
        ) == adreno_prefix() ==> leading_number(adapter_info.name@.skip(adreno_prefix().len() as int))
            <= u32::MAX),
{
    let name = chars_of(adapter_info.name.as_str());
    let prefix = chars_of("Adreno (TM) ");
    if name.len() < prefix.len() {
        return true;
    }
    match find_from(&name, &prefix, 0) {
        Some(0) => {},
        _ => {
            proof {
                if name@.take(prefix@.len() as int) == prefix@ {
                    assert(name@.subrange(0, prefix@.len() as int) =~= name@.take(prefix@.len() as int));
                    assert(occurs_at(name@, prefix@, 0));
                }
            }
            return true;
        },
    }
    assert(name@.subrange(0, prefix@.len() as int) =~= name@.take(prefix@.len() as int));
    let ghost t = name@.skip(prefix@.len() as int);
    let mut acc: u64 = 0;
    let mut i: usize = prefix.len();
    while i < name.len() && '0' <= name[i] && name[i] <= '9'
        invariant
            prefix@.len() <= i <= name@.len(),
            t == name@.skip(prefix@.len() as int),
            name@ == adapter_info.name@,
            prefix@ == adreno_prefix(),
            name@.take(prefix@.len() as int) == prefix@,
            forall|k: int| prefix@.len() <= k < i ==> is_digit(name@[k]),
            acc == digits_value(t.take(i - prefix@.len())),
            acc <= u32::MAX,
        decreases name@.len() - i,
    {
        proof {
            assert(t.take(i - prefix@.len() + 1).drop_last() =~= t.take(i - prefix@.len()));
        }
        acc = acc * 10 + (name[i] as u32 - '0' as u32) as u64;
        if acc > 0xffff_ffff {
            proof {
                let n = i - prefix@.len() + 1;
                assert(acc == digits_value(t.take(n)));
                assert forall|q: int| 0 <= q < n implies is_digit(t[q]) by {
                    assert(t[q] == name@[prefix@.len() + q]);
                }
                lemma_digit_run_at_least(t, n);
                lemma_digits_prefix_le(t.take(digit_run(t) as int), n);
                assert(t.take(digit_run(t) as int).take(n) =~= t.take(n));
                assert(leading_number(t) > u32::MAX);
            }
            return false;
        }
        i = i + 1;
    }
    proof {
        lemma_digit_run_exact(t, i - prefix@.len());
    }
    true
}

/// The Adreno GPU model number, if the adapter is an Adreno GPU on Android.
pub fn get_adreno_model(adapter_info: &RenderAdapterInfo, on_android: bool) -> (r: Option<u32>)
    requires
        adreno_model_fits_spec(adapter_info.name@),
    ensures
        r == adreno_model(adapter_info.name@, on_android),
{
    if !on_android {
        return None;
    }
    let name = chars_of(adapter_info.name.as_str());
    let prefix = chars_of("Adreno (TM) ");
    if name.len() < prefix.len() {
        return None;
    }
    match find_from(&name, &prefix, 0) {
        Some(0) => {},
        _ => {
            proof {
                if name@.take(prefix@.len() as int) == prefix@ {
                    assert(name@.subrange(0, prefix@.len() as int) =~= name@.take(prefix@.len() as int));
                    assert(occurs_at(name@, prefix@, 0));
                }
            }
            return None;
        },
    }
    assert(name@.subrange(0, prefix@.len() as int) =~= name@.take(prefix@.len() as int));
    Some(leading_number_of(&name, prefix.len()))
}

/// Whether the digits after an Adreno prefix fit in 32 bits.
pub open spec fn adreno_model_fits_spec(name: Seq<char>) -> bool {
    name.len() >= adreno_prefix().len() && name.take(adreno_prefix().len() as int) == adreno_prefix()
        ==> leading_number(name.skip(adreno_prefix().len() as int)) <= u32::MAX
}

/// The Mali driver version, if the adapter is a Mali GPU on Android.
pub fn get_mali_driver_version(adapter_info: &RenderAdapterInfo, on_android: bool) -> (r: Option<u32>)
    ensures
        r == mali_driver_version(adapter_info.name@, adapter_info.driver_info@, on_android),
{
    if !on_android {
        return None;
    }
    let name = chars_of(adapter_info.name.as_str());
    let mali = chars_of("Mali");
    match find_from(&name, &mali, 0) {
        Some(_) => {},
        None => {
            return None;
        },
    }
    let driver = chars_of(adapter_info.driver_info.as_str());
    let marker = chars_of("v1.r");
    let start = match find_from(&driver, &marker, 0) {
        Some(s) => s,
        None => {
            return None;
        },
    };
    proof {
        reveal_strlit("v1.r");
        assert(marker@.len() == 4);
        assert(forall|j: int| 0 <= j < start ==> !occurs_at(driver@, "v1.r"@, j));
    }
    let mut k: usize = start;
    while k < driver.len() && driver[k] != 'p'
        invariant
            start <= k <= driver@.len(),
            forall|q: int| start <= q < k ==> driver@[q] != 'p',
        decreases driver@.len() - k,
    {
        k = k + 1;
    }
    if k == driver.len() {
        return None;
    }
    proof {
        assert forall|i: int| start <= i < start + 4 implies driver@[i] != 'p' by {
            assert(driver@.subrange(start as int, start + 4)[i - start] == driver@[i]);
            assert("v1.r"@[i - start] != 'p');
        }
        let s0 = choose|i: int|
            occurs_at(driver@, "v1.r"@, i) && forall|j: int| 0 <= j < i ==> !occurs_at(driver@, "v1.r"@, j);
        assert(occurs_at(driver@, "v1.r"@, start as int));
        if s0 != start {
            if s0 < start {
                assert(!occurs_at(driver@, "v1.r"@, s0));
            } else {
                assert(!occurs_at(driver@, "v1.r"@, start as int));
            }
        }
        assert(driver@[k as int] == 'p');
        let e0 = choose|q: int|
            start <= q < driver@.len() && driver@[q] == 'p' && forall|r: int| start <= r < q ==> driver@[r] != 'p';
        if e0 != k {
            if e0 < k {
                assert(driver@[e0] != 'p');
            } else {
                assert(driver@[k as int] != 'p');
            }
        }
    }
    assert(k >= start + 4);
    parse_u32_chars(&driver, start + 4, k)
}

} // verus!
