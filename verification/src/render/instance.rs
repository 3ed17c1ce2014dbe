//! Physical device choice and the optional parts of the instance.
use crate::text::same_text;
use vstd::prelude::*;

verus! {

/// The kinds of graphics device, as the driver reports them.
#[derive(Debug, Clone, Copy, PartialEq, Eq, Structural)]
pub enum DeviceKind {
    Discrete,
    Integrated,
    Virtual,
    Other,
}

/// How much a kind of device is preferred.
pub open spec fn score_of(kind: DeviceKind) -> u32 {
    match kind {
        DeviceKind::Discrete => 1000,
        DeviceKind::Integrated => 100,
        DeviceKind::Virtual => 10,
        DeviceKind::Other => 1,
    }
}

/// The preference of a kind of device.
pub fn device_score(kind: DeviceKind) -> (r: u32)
    ensures
        r == score_of(kind),
{
    match kind {
        DeviceKind::Discrete => 1000,
        DeviceKind::Integrated => 100,
        DeviceKind::Virtual => 10,
        DeviceKind::Other => 1,
    }
}

/// No device scores above the one at `i`, and every one before it scores
/// below.
pub open spec fn first_best(kinds: Seq<DeviceKind>, i: int) -> bool {
    &&& 0 <= i < kinds.len()
    &&& forall|j: int| 0 <= j < kinds.len() ==> score_of(#[trigger] kinds[j]) <= score_of(kinds[i])
    &&& forall|j: int| 0 <= j < i ==> score_of(#[trigger] kinds[j]) < score_of(kinds[i])
}

/// Pick the best device, the earliest among equals; none if there is no device.
pub fn select_physical_device(kinds: &Vec<DeviceKind>) -> (r: Option<usize>)
    ensures
        r is None <==> kinds@.len() == 0,
        r matches Some(i) ==> first_best(kinds@, i as int),
{
    if kinds.len() == 0 {
        return None;
    }
    let mut best: usize = 0;
    let mut best_score: u32 = device_score(kinds[0]);
    let mut i: usize = 1;
    while i < kinds.len()
        invariant
            1 <= i <= kinds.len(),
            best < i,
            best_score == score_of(kinds@[best as int]),
            forall|j: int| 0 <= j < i ==> score_of(#[trigger] kinds@[j]) <= best_score,
            forall|j: int| 0 <= j < best ==> score_of(#[trigger] kinds@[j]) < best_score,
        decreases kinds.len() - i,
    {
        let score = device_score(kinds[i]);
        if score > best_score {
            best = i;
            best_score = score;
        }
        i += 1;
    }
    Some(best)
}

/// A name stands in a list.
pub open spec fn listed(names: Seq<String>, name: Seq<char>) -> bool {
    exists|i: int| 0 <= i < names.len() && (#[trigger] names[i])@ == name
}

/// Look a name up.
pub fn is_listed(names: &Vec<String>, name: &str) -> (r: bool)
    ensures
        r == listed(names@, name@),
{
    let mut i: usize = 0;
    while i < names.len()
        invariant
            i <= names.len(),
            forall|j: int| 0 <= j < i ==> (#[trigger] names@[j])@ != name@,
        decreases names.len() - i,
    {
        if same_text(names[i].as_str(), name) {
            assert(names@[i as int]@ == name@);
            return true;
        }
        i += 1;
    }
    false
}

/// Debug messages are switched on wherever the driver offers them.
pub fn wants_debug(extensions: &Vec<String>) -> (r: bool)
    ensures
        r == listed(extensions@, "VK_EXT_debug_utils"@),
{
    is_listed(extensions, "VK_EXT_debug_utils")
}

/// Validation runs if the layer is installed and the user asked for it by
/// setting the variable to 1.
pub fn wants_validation(layers: &Vec<String>, setting: Option<&str>) -> (r: bool)
    ensures
        r == (listed(layers@, "VK_LAYER_KHRONOS_validation"@) && (setting matches Some(s) && s@
            == "1"@)),
{
    let asked = match setting {
        Some(s) => same_text(s, "1"),
        None => false,
    };
    is_listed(layers, "VK_LAYER_KHRONOS_validation") && asked
}

/// A discrete device is preferred to an integrated one, that to a virtual one
/// and that to any other; only the same kind scores the same.
pub proof fn kinds_are_ranked(a: DeviceKind, b: DeviceKind)
    ensures
        score_of(DeviceKind::Discrete) > score_of(DeviceKind::Integrated) > score_of(
            DeviceKind::Virtual,
        ) > score_of(DeviceKind::Other) > 0,
        score_of(a) == score_of(b) <==> a == b,
{
}

/// The best device is unique. It is of the best kind that there is, and none
/// before it is of its kind.
pub proof fn best_device_is_the_first_of_its_kind(kinds: Seq<DeviceKind>, i: int, j: int)
    requires
        first_best(kinds, i),
        0 <= j < kinds.len(),
    ensures
        first_best(kinds, j) ==> i == j,
        kinds[j] is Discrete ==> kinds[i] is Discrete,
        kinds[j] is Integrated ==> kinds[i] is Discrete || kinds[i] is Integrated,
        kinds[j] is Virtual ==> kinds[i] !is Other,
        j < i ==> kinds[j] != kinds[i],
{
    assert(score_of(kinds[j]) <= score_of(kinds[i]));
    if first_best(kinds, j) && j < i {
        assert(score_of(kinds[j]) < score_of(kinds[i]));
        assert(score_of(kinds[i]) <= score_of(kinds[j]));
    }
    if first_best(kinds, j) && i < j {
        assert(score_of(kinds[i]) < score_of(kinds[j]));
    }
}

} // verus!
