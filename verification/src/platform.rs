//! Target platforms of published build artifacts, the closed set the
//! downstream packaging accepts, and the policy applied to discovered
//! platform metadata.

use vstd::prelude::*;

use crate::strutil::str_eq;

verus! {

/// Architecture/OS combination (or `universal`/`web`) a build artifact is
/// compiled for. `Unknown` doubles as the catch-all for unmapped tags.
#[derive(Clone, Copy, PartialEq, Eq, Structural, Debug)]
pub enum TargetPlatform {
    Win32X64,
    Win32Ia32,
    Win32Arm64,
    LinuxX64,
    LinuxArm64,
    LinuxArmhf,
    AlpineX64,
    AlpineArm64,
    DarwinX64,
    DarwinArm64,
    Web,
    Universal,
    Unknown,
    Undefined,
}

/// The platform a tag names; tags outside the mapping fall to `Unknown`.
pub open spec fn spec_platform_of(s: Seq<char>) -> TargetPlatform {
    if s == "win32_x64"@ || s == "win32-x64"@ {
        TargetPlatform::Win32X64
    } else if s == "win32_ia32"@ || s == "win32-ia32"@ {
        TargetPlatform::Win32Ia32
    } else if s == "win32_arm64"@ || s == "win32-arm64"@ {
        TargetPlatform::Win32Arm64
    } else if s == "linux_x64"@ || s == "linux-x64"@ {
        TargetPlatform::LinuxX64
    } else if s == "linux_arm64"@ || s == "linux-arm64"@ {
        TargetPlatform::LinuxArm64
    } else if s == "linux_armhf"@ || s == "linux-armhf"@ {
        TargetPlatform::LinuxArmhf
    } else if s == "alpine_x64"@ || s == "alpine-x64"@ {
        TargetPlatform::AlpineX64
    } else if s == "alpine_arm64"@ || s == "alpine-arm64"@ {
        TargetPlatform::AlpineArm64
    } else if s == "darwin_x64"@ || s == "darwin-x64"@ {
        TargetPlatform::DarwinX64
    } else if s == "darwin_arm64"@ || s == "darwin-arm64"@ {
        TargetPlatform::DarwinArm64
    } else if s == "web"@ {
        TargetPlatform::Web
    } else if s == "universal"@ {
        TargetPlatform::Universal
    } else if s == "undefined"@ {
        TargetPlatform::Undefined
    } else {
        TargetPlatform::Unknown
    }
}

/// Maps a platform tag to its platform.
pub fn platform_of_str(value: &str) -> (r: TargetPlatform)
    ensures
        r == spec_platform_of(value@),
{
    if str_eq(value, "win32_x64") || str_eq(value, "win32-x64") {
        TargetPlatform::Win32X64
    } else if str_eq(value, "win32_ia32") || str_eq(value, "win32-ia32") {
        TargetPlatform::Win32Ia32
    } else if str_eq(value, "win32_arm64") || str_eq(value, "win32-arm64") {
        TargetPlatform::Win32Arm64
    } else if str_eq(value, "linux_x64") || str_eq(value, "linux-x64") {
        TargetPlatform::LinuxX64
    } else if str_eq(value, "linux_arm64") || str_eq(value, "linux-arm64") {
        TargetPlatform::LinuxArm64
    } else if str_eq(value, "linux_armhf") || str_eq(value, "linux-armhf") {
        TargetPlatform::LinuxArmhf
    } else if str_eq(value, "alpine_x64") || str_eq(value, "alpine-x64") {
        TargetPlatform::AlpineX64
    } else if str_eq(value, "alpine_arm64") || str_eq(value, "alpine-arm64") {
        TargetPlatform::AlpineArm64
    } else if str_eq(value, "darwin_x64") || str_eq(value, "darwin-x64") {
        TargetPlatform::DarwinX64
    } else if str_eq(value, "darwin_arm64") || str_eq(value, "darwin-arm64") {
        TargetPlatform::DarwinArm64
    } else if str_eq(value, "web") {
        TargetPlatform::Web
    } else if str_eq(value, "universal") {
        TargetPlatform::Universal
    } else if str_eq(value, "undefined") {
        TargetPlatform::Undefined
    } else {
        TargetPlatform::Unknown
    }
}

impl From<&str> for TargetPlatform {
    fn from(value: &str) -> (r: Self) {
        platform_of_str(value)
    }
}

impl vstd::std_specs::convert::FromSpecImpl<&str> for TargetPlatform {
    open spec fn obeys_from_spec() -> bool {
        true
    }

    open spec fn from_spec(value: &str) -> Self {
        spec_platform_of(value@)
    }
}

/// The closed set of platforms the downstream packaging target supports.
/// Everything else is dropped silently, a deliberate narrowing.
pub open spec fn is_accepted_platform(p: TargetPlatform) -> bool {
    ||| p == TargetPlatform::LinuxX64
    ||| p == TargetPlatform::LinuxArm64
    ||| p == TargetPlatform::DarwinX64
    ||| p == TargetPlatform::DarwinArm64
    ||| p == TargetPlatform::Universal
    ||| p == TargetPlatform::Web
}

/// Exec check for the closed accepted set.
pub fn accepted_platform(p: &TargetPlatform) -> (r: bool)
    ensures
        r == is_accepted_platform(*p),
{
    matches!(
        p,
        TargetPlatform::LinuxX64 | TargetPlatform::LinuxArm64 | TargetPlatform::DarwinX64
            | TargetPlatform::DarwinArm64 | TargetPlatform::Universal | TargetPlatform::Web
    )
}

/// The sentinel values discovery metadata may carry; they name no platform.
pub open spec fn is_sentinel(p: TargetPlatform) -> bool {
    p == TargetPlatform::Unknown || p == TargetPlatform::Undefined
}

/// `universal` and `web` records: fallbacks that must not mask available
/// native builds.
pub open spec fn is_fallback_platform(p: TargetPlatform) -> bool {
    p == TargetPlatform::Web || p == TargetPlatform::Universal
}

/// Discovered platforms with the sentinels removed, order kept.
pub open spec fn drop_sentinels(s: Seq<TargetPlatform>) -> Seq<TargetPlatform>
    decreases s.len(),
{
    if s.len() == 0 {
        Seq::empty()
    } else {
        drop_sentinels(s.drop_last()) + if is_sentinel(s.last()) {
            Seq::<TargetPlatform>::empty()
        } else {
            seq![s.last()]
        }
    }
}

/// The concrete architectures among a discovered set, order kept.
pub open spec fn concrete_only(s: Seq<TargetPlatform>) -> Seq<TargetPlatform>
    decreases s.len(),
{
    if s.len() == 0 {
        Seq::empty()
    } else {
        concrete_only(s.drop_last()) + if is_fallback_platform(s.last()) {
            Seq::<TargetPlatform>::empty()
        } else {
            seq![s.last()]
        }
    }
}

/// Policy applied to a discovered platform set: sentinels go; and when at
/// least one concrete architecture is present, the `universal`/`web`
/// fallbacks go too rather than mask the native builds.
pub open spec fn spec_select_platforms(s: Seq<TargetPlatform>) -> Seq<TargetPlatform> {
    let known = drop_sentinels(s);
    let concrete = concrete_only(known);
    if concrete.len() > 0 {
        concrete
    } else {
        known
    }
}

/// Applies the discovery policy to a platform set.
pub fn select_target_platforms(raw: &Vec<TargetPlatform>) -> (r: Vec<TargetPlatform>)
    ensures
        r@ == spec_select_platforms(raw@),
{
    let mut known: Vec<TargetPlatform> = Vec::new();
    let mut i: usize = 0;
    while i < raw.len()
        invariant
            0 <= i <= raw@.len(),
            known@ == drop_sentinels(raw@.take(i as int)),
        decreases raw@.len() - i,
    {
        let p = raw[i];
        proof {
            assert(raw@.take(i + 1).drop_last() =~= raw@.take(i as int));
            assert(raw@.take(i + 1).last() == raw@[i as int]);
        }
        if !matches!(p, TargetPlatform::Unknown | TargetPlatform::Undefined) {
            known.push(p);
        }
        i += 1;
    }
    proof {
        assert(raw@.take(raw@.len() as int) =~= raw@);
    }
    let mut concrete: Vec<TargetPlatform> = Vec::new();
    let mut j: usize = 0;
    while j < known.len()
        invariant
            0 <= j <= known@.len(),
            concrete@ == concrete_only(known@.take(j as int)),
        decreases known@.len() - j,
    {
        let p = known[j];
        proof {
            assert(known@.take(j + 1).drop_last() =~= known@.take(j as int));
            assert(known@.take(j + 1).last() == known@[j as int]);
        }
        if !matches!(p, TargetPlatform::Web | TargetPlatform::Universal) {
            concrete.push(p);
        }
        j += 1;
    }
    proof {
        assert(known@.take(known@.len() as int) =~= known@);
    }
    if concrete.len() > 0 {
        concrete
    } else {
        known
    }
}

} // verus!
