//! The decisions of the graphical front end: which disks it offers, when
//! flashing may start, and how it reads the progress that the privileged
//! command-line helper prints.
use vstd::prelude::*;
use crate::devices::{
    Disk, FlashDecision, anything_mounted_on, lemma_mounted_exactly_when_some_device_is, texts,
};
use crate::text::{trim_str, trimmed};

verus! {

/// A disk offered as a flash target.
#[derive(Debug)]
pub struct DeviceChoice {
    pub path: String,
    pub model: String,
    pub size_bytes: u64,
    /// Whether flashing will unmount filesystems first.
    pub will_unmount: bool,
}

/// `choice` is what the front end offers for `disk`.
pub open spec fn choice_for(disk: Disk, choice: DeviceChoice) -> bool {
    &&& choice.path@ == disk.path@
    &&& choice.model@ == (match disk.model {
        Some(m) => m@,
        None => "unknown model"@,
    })
    &&& choice.size_bytes == disk.size_bytes
    &&& choice.will_unmount == (disk.mounts().len() > 0)
}

/// `choices` holds, in order, one choice for each disk that is not hidden
/// by default, and nothing else.
pub open spec fn choices_for(disks: Seq<Disk>, choices: Seq<DeviceChoice>) -> bool
    decreases disks.len(),
{
    if disks.len() == 0 {
        choices.len() == 0
    } else if disks.last().decision_for(None) != FlashDecision::HiddenByDefault {
        &&& choices.len() > 0
        &&& choice_for(disks.last(), choices.last())
        &&& choices_for(disks.drop_last(), choices.drop_last())
    } else {
        choices_for(disks.drop_last(), choices)
    }
}

/// The disks the front end offers, in order: every disk not hidden by
/// default.
pub fn device_choices(disks: &Vec<Disk>) -> (r: Vec<DeviceChoice>)
    ensures
        choices_for(disks@, r@),
        forall|k: int| 0 <= k < r@.len() ==> exists|i: int|
            0 <= i < disks@.len() && offers_disk(disks@[i], #[trigger] r@[k]),
        forall|i: int| 0 <= i < disks@.len() && (#[trigger] disks@[i]).removable ==> exists|k: int|
            0 <= k < r@.len() && offers_disk(disks@[i], #[trigger] r@[k]),
{
    let mut choices: Vec<DeviceChoice> = Vec::new();
    let mut i: usize = 0;
    while i < disks.len()
        invariant
            i <= disks.len(),
            choices_for(disks@.take(i as int), choices@),
        decreases disks.len() - i,
    {
        let ghost before = choices@;
        assert(disks@.take(i + 1).drop_last() == disks@.take(i as int));
        assert(disks@.take(i + 1).last() == disks@[i as int]);
        let disk = &disks[i];
        if disk.flash_decision(None) != FlashDecision::HiddenByDefault {
            let choice = DeviceChoice {
                path: disk.path.clone(),
                model: disk.model_label().to_string(),
                size_bytes: disk.size_bytes,
                will_unmount: disk.has_mounts(),
            };
            choices.push(choice);
            assert(choices@.drop_last() == before);
        }
        i = i + 1;
    }
    assert(disks@.take(disks.len() as int) == disks@);
    proof {
        lemma_choices_say_when_unmounting_comes_first(disks@, choices@);
    }
    choices
}

/// The word that tells whether flashing a choice will unmount first.
pub fn preparation_text(will_unmount: bool) -> (r: &'static str)
    ensures
        r@ == (if will_unmount {
            "will unmount"@
        } else {
            "ready"@
        }),
{
    if will_unmount {
        "will unmount"
    } else {
        "ready"
    }
}

/// The flash button is enabled once an image and a target are chosen.
pub fn flash_button_enabled(image_chosen: bool, device_chosen: bool) -> (r: bool)
    ensures
        r == (image_chosen && device_chosen),
{
    image_chosen && device_chosen
}

/// Why flashing cannot start yet, if it cannot: no image comes first, then
/// no target.
pub fn flash_start_refusal(image_chosen: bool, device_chosen: bool) -> (r: Option<&'static str>)
    ensures
        match r {
            Some(m) => !(image_chosen && device_chosen) && m@ == (if !image_chosen {
                "Choose an image first"@
            } else {
                "Choose a target device first"@
            }),
            None => image_chosen && device_chosen,
        },
{
    if !image_chosen {
        Some("Choose an image first")
    } else if !device_chosen {
        Some("Choose a target device first")
    } else {
        None
    }
}

/// `needle` occurs in `haystack`.
pub open spec fn contains_text(haystack: Seq<char>, needle: Seq<char>) -> bool {
    exists|i: int|
        0 <= i && i + needle.len() <= haystack.len() && #[trigger] haystack.subrange(
            i,
            i + needle.len(),
        ) == needle
}

/// Whether `needle` occurs in `haystack` as a run of characters (what
/// `str::contains` with a text pattern answers), found by trying each
/// position in turn.
fn text_contains(haystack: &str, needle: &str) -> (r: bool)
    ensures
        r == contains_text(haystack@, needle@),
{
    let n: usize = haystack.unicode_len();
    let m: usize = needle.unicode_len();
    if m > n {
        return false;
    }
    let mut i: usize = 0;
    while i <= n - m
        invariant
            n == haystack@.len(),
            m == needle@.len(),
            m <= n,
            i <= n - m + 1,
            forall|k: int| 0 <= k < i ==> #[trigger] haystack@.subrange(k, k + m) != needle@,
        decreases n - m + 1 - i,
    {
        let mut j: usize = 0;
        let mut same = true;
        while j < m && same
            invariant
                n == haystack@.len(),
                m == needle@.len(),
                i + m <= n,
                j <= m,
                same <==> forall|t: int| 0 <= t < j ==> haystack@[i + t] == needle@[t],
            decreases m - j,
        {
            if haystack.get_char(i + j) != needle.get_char(j) {
                same = false;
            }
            j = j + 1;
        }
        if same {
            assert(haystack@.subrange(i as int, i + m) =~= needle@);
            return true;
        }
        assert(haystack@.subrange(i as int, i + m) != needle@) by {
            let t: int = choose|t: int| 0 <= t < j && haystack@[i + t] != needle@[t];
            assert(haystack@.subrange(i as int, i + m)[t] == haystack@[i + t]);
        }
        i = i + 1;
    }
    false
}

/// What a line that the helper prints tells the front end.
#[derive(Debug, Clone, Copy, PartialEq, Eq, Structural)]
pub enum HelperLine {
    PreparingTarget,
    WritingImage,
    VerifyingImage,
    WriteComplete,
    VerificationComplete,
    FlashFinished,
    Other,
}

/// The kind of a helper line: the first of the markers, in this order, that
/// the line contains.
pub open spec fn helper_line_kind(line: Seq<char>) -> HelperLine {
    if contains_text(line, "Preparing target:"@) {
        HelperLine::PreparingTarget
    } else if contains_text(line, "Writing image to device:"@) {
        HelperLine::WritingImage
    } else if contains_text(line, "Verifying written image:"@) {
        HelperLine::VerifyingImage
    } else if contains_text(line, "Device write complete."@) {
        HelperLine::WriteComplete
    } else if contains_text(line, "Verification complete"@) {
        HelperLine::VerificationComplete
    } else if contains_text(line, "Flash operation finished."@) {
        HelperLine::FlashFinished
    } else {
        HelperLine::Other
    }
}

/// The kind of a line that the helper printed.
pub fn classify_helper_line(line: &str) -> (r: HelperLine)
    ensures
        r == helper_line_kind(line@),
        read_by_markers(line@, r),
        shows_for_kind(r),
{
    proof {
        lemma_lines_read_by_markers(line@);
    }
    if text_contains(line, "Preparing target:") {
        HelperLine::PreparingTarget
    } else if text_contains(line, "Writing image to device:") {
        HelperLine::WritingImage
    } else if text_contains(line, "Verifying written image:") {
        HelperLine::VerifyingImage
    } else if text_contains(line, "Device write complete.") {
        HelperLine::WriteComplete
    } else if text_contains(line, "Verification complete") {
        HelperLine::VerificationComplete
    } else if text_contains(line, "Flash operation finished.") {
        HelperLine::FlashFinished
    } else {
        HelperLine::Other
    }
}

/// The phase that a line starts, if it starts one.
pub open spec fn line_phase(kind: HelperLine) -> Option<Seq<char>> {
    match kind {
        HelperLine::PreparingTarget => Some("Preparing"@),
        HelperLine::WritingImage => Some("Writing"@),
        HelperLine::VerifyingImage => Some("Verifying"@),
        _ => None,
    }
}

/// The status text shown for a line, if any.
pub open spec fn line_status(kind: HelperLine) -> Option<Seq<char>> {
    match kind {
        HelperLine::PreparingTarget => Some("Preparing target"@),
        HelperLine::WritingImage => Some("Writing image"@),
        HelperLine::VerifyingImage => Some("Verifying image"@),
        HelperLine::WriteComplete => Some("Write complete"@),
        HelperLine::VerificationComplete => Some("Verification complete"@),
        HelperLine::FlashFinished => Some("Flash operation finished"@),
        HelperLine::Other => None,
    }
}

impl HelperLine {
    /// The phase that progress is reported under after this line, if the
    /// line starts one.
    pub fn phase(&self) -> (r: Option<&'static str>)
        ensures
            match r {
                Some(p) => line_phase(*self) == Some(p@),
                None => line_phase(*self) is None,
            },
            shows_for_kind(*self),
    {
        match self {
            HelperLine::PreparingTarget => Some("Preparing"),
            HelperLine::WritingImage => Some("Writing"),
            HelperLine::VerifyingImage => Some("Verifying"),
            _ => None,
        }
    }

    /// The status text shown for this line, if any.
    pub fn status(&self) -> (r: Option<&'static str>)
        ensures
            match r {
                Some(s) => line_status(*self) == Some(s@),
                None => line_status(*self) is None,
            },
            shows_for_kind(*self),
    {
        match self {
            HelperLine::PreparingTarget => Some("Preparing target"),
            HelperLine::WritingImage => Some("Writing image"),
            HelperLine::VerifyingImage => Some("Verifying image"),
            HelperLine::WriteComplete => Some("Write complete"),
            HelperLine::VerificationComplete => Some("Verification complete"),
            HelperLine::FlashFinished => Some("Flash operation finished"),
            HelperLine::Other => None,
        }
    }
}

/// The phase that progress is reported under before any line starts one.
pub open spec fn first_phase() -> Seq<char> {
    "Working"@
}

/// The phase that a line starts, if it starts one.
#[verifier::opaque]
pub open spec fn marker_phase(line: Seq<char>) -> Option<Seq<char>> {
    line_phase(helper_line_kind(line))
}

/// The phase after a line, given the phase before it: the phase the line
/// starts, if it starts one, else the one before.
pub open spec fn phase_step(phase: Seq<char>, line: Seq<char>) -> Seq<char> {
    match marker_phase(line) {
        Some(p) => p,
        None => phase,
    }
}

/// The phase after the given lines, starting from `phase`.
pub open spec fn phase_after_lines(phase: Seq<char>, lines: Seq<Seq<char>>) -> Seq<char>
    decreases lines.len(),
{
    if lines.len() == 0 {
        phase
    } else {
        phase_step(phase_after_lines(phase, lines.drop_last()), lines.last())
    }
}

/// The phase that progress is reported under before the helper printed
/// anything that starts a phase.
pub fn starting_phase() -> (r: String)
    ensures
        r@ == first_phase(),
{
    "Working".to_string()
}

/// The phase after the helper printed `line`, the phase before being
/// `phase`.
pub fn phase_after_line(phase: &str, line: &str) -> (r: String)
    ensures
        r@ == phase_step(phase@, line@),
{
    reveal(marker_phase);
    match classify_helper_line(line).phase() {
        Some(p) => p.to_string(),
        None => phase.to_string(),
    }
}

/// Where no line starts a phase, the phase after the lines is the one
/// started from.
pub proof fn lemma_phase_kept_without_markers(phase: Seq<char>, lines: Seq<Seq<char>>)
    requires
        forall|i: int| 0 <= i < lines.len() ==> marker_phase(#[trigger] lines[i]) is None,
    ensures
        phase_after_lines(phase, lines) == phase,
    decreases lines.len(),
{
    if lines.len() > 0 {
        let rest = lines.drop_last();
        assert forall|i: int| 0 <= i < rest.len() implies marker_phase(#[trigger] rest[i]) is None by {
            assert(rest[i] == lines[i]);
        }
        lemma_phase_kept_without_markers(phase, rest);
        assert(marker_phase(lines[lines.len() - 1]) is None);
    }
}

/// After any lines, the phase is the one that the last line starting a
/// phase starts.
pub proof fn lemma_phase_is_that_of_last_marker(phase: Seq<char>, lines: Seq<Seq<char>>, k: int)
    requires
        0 <= k < lines.len(),
        marker_phase(lines[k]) is Some,
        forall|i: int| k < i < lines.len() ==> marker_phase(#[trigger] lines[i]) is None,
    ensures
        phase_after_lines(phase, lines) == marker_phase(lines[k])->0,
    decreases lines.len(),
{
    let rest = lines.drop_last();
    if k < lines.len() - 1 {
        assert(marker_phase(lines[lines.len() - 1]) is None);
        assert(rest[k] == lines[k]);
        assert forall|i: int| k < i < rest.len() implies marker_phase(#[trigger] rest[i]) is None by {
            assert(rest[i] == lines[i]);
        }
        lemma_phase_is_that_of_last_marker(phase, rest, k);
    }
}

/// The arguments with which the front end has `pkexec` run the
/// command-line helper `cli` to flash `image_path` onto `target_path`.
pub open spec fn helper_arguments(
    cli: Seq<char>,
    image_path: Seq<char>,
    target_path: Seq<char>,
    verify_after_write: bool,
) -> Seq<Seq<char>> {
    seq![cli, image_path, "--write-device"@, target_path, "--yes"@] + if verify_after_write {
        seq!["--verify"@]
    } else {
        Seq::empty()
    }
}

/// The arguments for `pkexec` that run the helper: the helper, the image,
/// `--write-device` and the target, `--yes`, and `--verify` on request.
pub fn privileged_helper_arguments(
    cli: &str,
    image_path: &str,
    target_path: &str,
    verify_after_write: bool,
) -> (r: Vec<String>)
    ensures
        texts(r@) == helper_arguments(cli@, image_path@, target_path@, verify_after_write),
{
    let mut arguments: Vec<String> = Vec::new();
    arguments.push(cli.to_string());
    arguments.push(image_path.to_string());
    arguments.push("--write-device".to_string());
    arguments.push(target_path.to_string());
    arguments.push("--yes".to_string());
    if verify_after_write {
        arguments.push("--verify".to_string());
    }
    assert(texts(arguments@) =~= helper_arguments(cli@, image_path@, target_path@, verify_after_write));
    arguments
}

/// The message for a helper that failed: what it wrote to its error
/// stream, trimmed, or where that is empty, its exit status.
pub open spec fn failure_message(status_text: Seq<char>, stderr: Seq<char>) -> Seq<char> {
    if trimmed(stderr).len() == 0 {
        "privileged helper exited with status "@ + status_text
    } else {
        trimmed(stderr)
    }
}

/// The message for a helper that exited unsuccessfully with the given
/// status (as text) and error output.
pub fn helper_failure_message(status_text: &str, stderr: &str) -> (r: String)
    ensures
        r@ == failure_message(status_text@, stderr@),
{
    let trimmed_err = trim_str(stderr);
    if trimmed_err.is_empty() {
        let mut text = "privileged helper exited with status ".to_string();
        text.append(status_text);
        text
    } else {
        trimmed_err.to_string()
    }
}

/// Some removable disk of `disks` is the one that `choice` offers.
pub open spec fn offered_from_removable(disks: Seq<Disk>, choice: DeviceChoice) -> bool {
    exists|i: int| #![trigger disks[i]] 0 <= i < disks.len() && disks[i].removable && choice_for(disks[i], choice)
}

/// Some choice of `choices` offers `disk`.
pub open spec fn is_offered(choices: Seq<DeviceChoice>, disk: Disk) -> bool {
    exists|k: int| #![trigger choices[k]] 0 <= k < choices.len() && choice_for(disk, choices[k])
}

/// Only removable disks are offered: each choice is the choice for a
/// removable disk of the list.
pub proof fn lemma_offered_disks_are_removable(disks: Seq<Disk>, choices: Seq<DeviceChoice>)
    requires
        choices_for(disks, choices),
    ensures
        forall|k: int| 0 <= k < choices.len() ==> offered_from_removable(disks, #[trigger] choices[k]),
    decreases disks.len(),
{
    if disks.len() > 0 {
        let rest = disks.drop_last();
        let last = disks.last();
        if last.decision_for(None) != FlashDecision::HiddenByDefault {
            let earlier = choices.drop_last();
            lemma_offered_disks_are_removable(rest, earlier);
            assert forall|k: int| 0 <= k < choices.len() implies offered_from_removable(disks, #[trigger] choices[k]) by {
                if k < choices.len() - 1 {
                    assert(choices[k] == earlier[k]);
                    assert(offered_from_removable(rest, earlier[k]));
                    let i: int = choose|i: int| #![trigger rest[i]]
                        0 <= i < rest.len() && rest[i].removable && choice_for(rest[i], earlier[k]);
                    assert(disks[i] == rest[i]);
                } else {
                    assert(disks[disks.len() - 1] == last);
                    assert(choices[k] == choices.last());
                }
            }
        } else {
            lemma_offered_disks_are_removable(rest, choices);
            assert forall|k: int| 0 <= k < choices.len() implies offered_from_removable(disks, #[trigger] choices[k]) by {
                assert(offered_from_removable(rest, choices[k]));
                let i: int = choose|i: int| #![trigger rest[i]]
                    0 <= i < rest.len() && rest[i].removable && choice_for(rest[i], choices[k]);
                assert(disks[i] == rest[i]);
            }
        }
    }
}

/// Every removable disk of the list is offered.
pub proof fn lemma_removable_disks_are_offered(disks: Seq<Disk>, choices: Seq<DeviceChoice>)
    requires
        choices_for(disks, choices),
    ensures
        forall|i: int| 0 <= i < disks.len() && (#[trigger] disks[i]).removable ==> is_offered(choices, disks[i]),
    decreases disks.len(),
{
    if disks.len() > 0 {
        let rest = disks.drop_last();
        let last = disks.last();
        if last.decision_for(None) != FlashDecision::HiddenByDefault {
            let earlier = choices.drop_last();
            lemma_removable_disks_are_offered(rest, earlier);
            assert forall|i: int| 0 <= i < disks.len() && (#[trigger] disks[i]).removable implies is_offered(choices, disks[i]) by {
                if i < disks.len() - 1 {
                    assert(rest[i] == disks[i]);
                    assert(is_offered(earlier, rest[i]));
                    let k: int = choose|k: int| #![trigger earlier[k]] 0 <= k < earlier.len() && choice_for(rest[i], earlier[k]);
                    assert(choices[k] == earlier[k]);
                } else {
                    assert(disks[i] == last);
                    assert(choices[choices.len() - 1] == choices.last());
                }
            }
        } else {
            lemma_removable_disks_are_offered(rest, choices);
            assert forall|i: int| 0 <= i < disks.len() && (#[trigger] disks[i]).removable implies is_offered(choices, disks[i]) by {
                if i < disks.len() - 1 {
                    assert(rest[i] == disks[i]);
                    assert(is_offered(choices, rest[i]));
                } else {
                    assert(disks[i] == last);
                }
            }
        }
    }
}

/// `choice` offers the removable `disk` by its path, and says that flashing
/// will unmount first exactly when something is mounted from the disk, its
/// own mountpoints included.
pub open spec fn offers_disk(disk: Disk, choice: DeviceChoice) -> bool {
    &&& disk.removable
    &&& choice.path@ == disk.path@
    &&& choice.size_bytes == disk.size_bytes
    &&& choice.will_unmount == anything_mounted_on(disk)
}

/// Each offered choice offers a removable disk of the list, with
/// `will_unmount` set exactly when something is mounted from that disk; and
/// every removable disk of the list is offered so.
pub proof fn lemma_choices_say_when_unmounting_comes_first(disks: Seq<Disk>, choices: Seq<DeviceChoice>)
    requires
        choices_for(disks, choices),
    ensures
        forall|k: int| 0 <= k < choices.len() ==> exists|i: int|
            0 <= i < disks.len() && offers_disk(disks[i], #[trigger] choices[k]),
        forall|i: int| 0 <= i < disks.len() && (#[trigger] disks[i]).removable ==> exists|k: int|
            0 <= k < choices.len() && offers_disk(disks[i], #[trigger] choices[k]),
{
    lemma_offered_disks_are_removable(disks, choices);
    lemma_removable_disks_are_offered(disks, choices);
    assert forall|k: int| 0 <= k < choices.len() implies exists|i: int|
        0 <= i < disks.len() && offers_disk(disks[i], #[trigger] choices[k]) by {
        assert(offered_from_removable(disks, choices[k]));
        let i: int = choose|i: int| #![trigger disks[i]]
            0 <= i < disks.len() && disks[i].removable && choice_for(disks[i], choices[k]);
        lemma_mounted_exactly_when_some_device_is(disks[i]);
        assert(offers_disk(disks[i], choices[k]));
    }
    assert forall|i: int| 0 <= i < disks.len() && (#[trigger] disks[i]).removable implies exists|k: int|
        0 <= k < choices.len() && offers_disk(disks[i], #[trigger] choices[k]) by {
        assert(is_offered(choices, disks[i]));
        let k: int = choose|k: int| #![trigger choices[k]] 0 <= k < choices.len() && choice_for(disks[i], choices[k]);
        lemma_mounted_exactly_when_some_device_is(disks[i]);
        assert(offers_disk(disks[i], choices[k]));
    }
}

/// A helper line is read by the first of the helper's markers that it
/// contains, in the order the helper's phases come: "Preparing target:",
/// "Writing image to device:", "Verifying written image:", "Device write
/// complete.", "Verification complete", "Flash operation finished."; a line
/// with none of them is read as nothing in particular.
pub open spec fn read_by_markers(line: Seq<char>, kind: HelperLine) -> bool {
    let prep = contains_text(line, "Preparing target:"@);
    let write = contains_text(line, "Writing image to device:"@);
    let verify = contains_text(line, "Verifying written image:"@);
    let written = contains_text(line, "Device write complete."@);
    let verified = contains_text(line, "Verification complete"@);
    let finished = contains_text(line, "Flash operation finished."@);
    &&& prep ==> kind == HelperLine::PreparingTarget
    &&& !prep && write ==> kind == HelperLine::WritingImage
    &&& !prep && !write && verify ==> kind == HelperLine::VerifyingImage
    &&& !prep && !write && !verify && written ==> kind == HelperLine::WriteComplete
    &&& !prep && !write && !verify && !written && verified ==> kind == HelperLine::VerificationComplete
    &&& !prep && !write && !verify && !written && !verified && finished ==> kind == HelperLine::FlashFinished
    &&& !prep && !write && !verify && !written && !verified && !finished ==> kind == HelperLine::Other
}

/// What the front end shows for each kind of line: the phase it starts and
/// the status text.
pub open spec fn shows_for_kind(kind: HelperLine) -> bool {
    &&& kind == HelperLine::PreparingTarget ==> line_phase(kind) == Some("Preparing"@)
        && line_status(kind) == Some("Preparing target"@)
    &&& kind == HelperLine::WritingImage ==> line_phase(kind) == Some("Writing"@)
        && line_status(kind) == Some("Writing image"@)
    &&& kind == HelperLine::VerifyingImage ==> line_phase(kind) == Some("Verifying"@)
        && line_status(kind) == Some("Verifying image"@)
    &&& kind == HelperLine::WriteComplete ==> line_phase(kind) is None
        && line_status(kind) == Some("Write complete"@)
    &&& kind == HelperLine::VerificationComplete ==> line_phase(kind) is None
        && line_status(kind) == Some("Verification complete"@)
    &&& kind == HelperLine::FlashFinished ==> line_phase(kind) is None
        && line_status(kind) == Some("Flash operation finished"@)
    &&& kind == HelperLine::Other ==> line_phase(kind) is None && line_status(kind) is None
}

/// Every line is read by the helper's markers, and every kind of line shows
/// its phase and status.
pub proof fn lemma_lines_read_by_markers(line: Seq<char>)
    ensures
        read_by_markers(line, helper_line_kind(line)),
        shows_for_kind(helper_line_kind(line)),
{
}

} // verus!
