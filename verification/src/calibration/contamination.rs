//! Contamination detection for controlled calibration experiments.
//!
//! Exclusive use of an account is a recorded premise of an experiment, not a lock.
//! Four signals can show that the premise was false: quota moving while the account
//! was asserted idle, quota moving long after the work settled, quota moving while
//! local credits stayed flat, and another session marked against the same account.
//! Every signal is evaluated, and each that fires is reported with its magnitude. A
//! contaminated candidate is never activatable.
//!
//! Thresholds travel with the experiment. The conservative defaults only fill the
//! record of a new one.

use crate::calibration::settlement::{clamped, distance};
use crate::domain::{Credits, MonotonicDuration, QuotaUsed, UtcTimestamp};
use crate::sets::{
    copied_texts, insert_text, join_texts, joined, lemma_ordered_set, ordered_set, texts,
};
use crate::text::{
    blank, decimal, decimal_text, is_blank, same_text, signed_decimal, signed_decimal_text,
};
use vstd::prelude::*;
use vstd::string::*;

verus! {

pub const DEFAULT_PRE_BURN_MAX_MOVEMENT_PPM: u32 = 10_000;

pub const DEFAULT_POST_SETTLEMENT_MAX_MOVEMENT_PPM: u32 = 10_000;

pub const DEFAULT_POST_SETTLEMENT_GRACE_NANOS: u64 = 3_600_000_000_000;

pub const DEFAULT_FLAT_CREDITS_MIN_METER_MOVEMENT_PPM: u32 = 20_000;

pub const DEFAULT_FLAT_CREDITS_MAX_LOCAL_MICROS: i64 = 0;

/// Which of the four signals fired.
#[derive(Debug, Clone, Copy, PartialEq, Eq, Hash, Structural)]
pub enum ContaminationSignal {
    /// Quota moved during the idle period asserted before the burn.
    PreBurnIdleMovement,
    /// Quota kept moving beyond the expected settlement interval.
    ExtendedSettlementDrift,
    /// Local credits stayed flat while the meter moved substantially.
    FlatCreditsWithMeterMovement,
    /// Another session was marked against the account inside the experiment window.
    OverlappingSession,
}

impl ContaminationSignal {
    /// The one-word name of the signal.
    pub open spec fn name(self) -> Seq<char> {
        match self {
            ContaminationSignal::PreBurnIdleMovement => "pre_burn_idle_movement"@,
            ContaminationSignal::ExtendedSettlementDrift => "extended_settlement_drift"@,
            ContaminationSignal::FlatCreditsWithMeterMovement =>
                "flat_credits_with_meter_movement"@,
            ContaminationSignal::OverlappingSession => "overlapping_session"@,
        }
    }

    /// A stable snake-case label, so that a finding names its signal in one word.
    pub fn label(self) -> (label: &'static str)
        ensures
            label@ == self.name(),
    {
        match self {
            ContaminationSignal::PreBurnIdleMovement => "pre_burn_idle_movement",
            ContaminationSignal::ExtendedSettlementDrift => "extended_settlement_drift",
            ContaminationSignal::FlatCreditsWithMeterMovement => "flat_credits_with_meter_movement",
            ContaminationSignal::OverlappingSession => "overlapping_session",
        }
    }

    /// All four signals in the order in which they are evaluated.
    pub fn all() -> (signals: [Self; 4])
        ensures
            signals@ == seq![
                ContaminationSignal::PreBurnIdleMovement,
                ContaminationSignal::ExtendedSettlementDrift,
                ContaminationSignal::FlatCreditsWithMeterMovement,
                ContaminationSignal::OverlappingSession,
            ],
            forall|s: ContaminationSignal| #[trigger] signals@.contains(s),
    {
        let signals: [ContaminationSignal; 4] = [
            ContaminationSignal::PreBurnIdleMovement,
            ContaminationSignal::ExtendedSettlementDrift,
            ContaminationSignal::FlatCreditsWithMeterMovement,
            ContaminationSignal::OverlappingSession,
        ];
        proof {
            assert forall|s: ContaminationSignal| #[trigger] signals@.contains(s) by {
                match s {
                    ContaminationSignal::PreBurnIdleMovement => assert(signals@[0] == s),
                    ContaminationSignal::ExtendedSettlementDrift => assert(signals@[1] == s),
                    ContaminationSignal::FlatCreditsWithMeterMovement => assert(signals@[2] == s),
                    ContaminationSignal::OverlappingSession => assert(signals@[3] == s),
                }
            }
        }
        signals
    }
}

/// Why thresholds were refused.
#[derive(Debug, Clone, PartialEq, Eq, Structural)]
pub enum ContaminationThresholdsError {
    EmptyVersion,
    PostSettlementGraceIsZero,
}

impl ContaminationThresholdsError {
    /// The sentence shown for this refusal.
    pub open spec fn text(self) -> Seq<char> {
        match self {
            ContaminationThresholdsError::EmptyVersion =>
                "contamination thresholds version cannot be empty"@,
            ContaminationThresholdsError::PostSettlementGraceIsZero =>
                "post-settlement grace must be non-zero"@,
        }
    }

    /// Renders the refusal as a sentence.
    pub fn message(&self) -> (message: String)
        ensures
            message@ == self.text(),
    {
        match self {
            ContaminationThresholdsError::EmptyVersion =>
                "contamination thresholds version cannot be empty",
            ContaminationThresholdsError::PostSettlementGraceIsZero =>
                "post-settlement grace must be non-zero",
        }.to_owned()
    }
}

/// The thresholds recorded on one experiment. The overlapping-session signal has none:
/// any other session marked inside the recorded window is evidence.
#[derive(Debug, PartialEq, Eq)]
pub struct ContaminationThresholds {
    version: String,
    pre_burn_max_movement_ppm: u32,
    post_settlement_max_movement_ppm: u32,
    post_settlement_grace: MonotonicDuration,
    flat_credits_min_meter_movement_ppm: u32,
    flat_credits_max_local: Credits,
}

impl Clone for ContaminationThresholds {
    fn clone(&self) -> (copy: Self)
        ensures
            copy == *self,
    {
        proof {
            use_type_invariant(self);
        }
        ContaminationThresholds {
            version: self.version.clone(),
            pre_burn_max_movement_ppm: self.pre_burn_max_movement_ppm,
            post_settlement_max_movement_ppm: self.post_settlement_max_movement_ppm,
            post_settlement_grace: self.post_settlement_grace,
            flat_credits_min_meter_movement_ppm: self.flat_credits_min_meter_movement_ppm,
            flat_credits_max_local: self.flat_credits_max_local,
        }
    }
}

impl ContaminationThresholds {
    #[verifier::type_invariant]
    spec fn sound(&self) -> bool {
        !blank(self.version@) && self.post_settlement_grace.nanos != 0
    }

    /// The recorded version.
    pub closed spec fn version_text(&self) -> Seq<char> {
        self.version@
    }

    /// The most movement tolerated while the account was asserted idle.
    pub closed spec fn idle_tolerance(&self) -> u32 {
        self.pre_burn_max_movement_ppm
    }

    /// The most movement tolerated past the settlement grace.
    pub closed spec fn drift_tolerance(&self) -> u32 {
        self.post_settlement_max_movement_ppm
    }

    /// How long after the work movement is still ordinary settlement lag.
    pub closed spec fn grace(&self) -> MonotonicDuration {
        self.post_settlement_grace
    }

    /// From how much movement on the meter counts as substantial.
    pub closed spec fn substantial_movement(&self) -> u32 {
        self.flat_credits_min_meter_movement_ppm
    }

    /// Up to how many local credits count as flat.
    pub closed spec fn flat_limit(&self) -> Credits {
        self.flat_credits_max_local
    }

    /// Builds thresholds. A tolerance of zero means that any movement fires. The grace
    /// must not be zero, or ordinary settlement lag would look like drift.
    pub fn new(
        version: &str,
        pre_burn_max_movement_ppm: u32,
        post_settlement_max_movement_ppm: u32,
        post_settlement_grace: MonotonicDuration,
        flat_credits_min_meter_movement_ppm: u32,
        flat_credits_max_local: Credits,
    ) -> (thresholds: Result<Self, ContaminationThresholdsError>)
        ensures
            match thresholds {
                Ok(t) => {
                    &&& !blank(version@)
                    &&& post_settlement_grace.nanos != 0
                    &&& t.version_text() == version@
                    &&& t.idle_tolerance() == pre_burn_max_movement_ppm
                    &&& t.drift_tolerance() == post_settlement_max_movement_ppm
                    &&& t.grace() == post_settlement_grace
                    &&& t.substantial_movement() == flat_credits_min_meter_movement_ppm
                    &&& t.flat_limit() == flat_credits_max_local
                },
                Err(e) => e == if blank(version@) {
                    ContaminationThresholdsError::EmptyVersion
                } else {
                    ContaminationThresholdsError::PostSettlementGraceIsZero
                } && (blank(version@) || post_settlement_grace.nanos == 0),
            },
    {
        if is_blank(version) {
            return Err(ContaminationThresholdsError::EmptyVersion);
        }
        if post_settlement_grace.as_nanos() == 0 {
            return Err(ContaminationThresholdsError::PostSettlementGraceIsZero);
        }
        Ok(
            ContaminationThresholds {
                version: version.to_owned(),
                pre_burn_max_movement_ppm,
                post_settlement_max_movement_ppm,
                post_settlement_grace,
                flat_credits_min_meter_movement_ppm,
                flat_credits_max_local,
            },
        )
    }

    /// One percentage point of tolerance before the burn and after the grace, a grace of
    /// sixty minutes, two percentage points as substantial, and no credits at all as flat.
    pub fn conservative_default() -> (thresholds: Self)
        ensures
            thresholds.version_text() == "contamination-v1"@,
            thresholds.idle_tolerance() == DEFAULT_PRE_BURN_MAX_MOVEMENT_PPM,
            thresholds.drift_tolerance() == DEFAULT_POST_SETTLEMENT_MAX_MOVEMENT_PPM,
            thresholds.grace().nanos == DEFAULT_POST_SETTLEMENT_GRACE_NANOS,
            thresholds.substantial_movement() == DEFAULT_FLAT_CREDITS_MIN_METER_MOVEMENT_PPM,
            thresholds.flat_limit().micros == DEFAULT_FLAT_CREDITS_MAX_LOCAL_MICROS,
    {
        proof {
            reveal_strlit("contamination-v1");
            assert("contamination-v1"@[0] == 'c');
        }
        ContaminationThresholds {
            version: "contamination-v1".to_owned(),
            pre_burn_max_movement_ppm: DEFAULT_PRE_BURN_MAX_MOVEMENT_PPM,
            post_settlement_max_movement_ppm: DEFAULT_POST_SETTLEMENT_MAX_MOVEMENT_PPM,
            post_settlement_grace: MonotonicDuration::from_nanos(
                DEFAULT_POST_SETTLEMENT_GRACE_NANOS,
            ),
            flat_credits_min_meter_movement_ppm: DEFAULT_FLAT_CREDITS_MIN_METER_MOVEMENT_PPM,
            flat_credits_max_local: Credits::from_micros(DEFAULT_FLAT_CREDITS_MAX_LOCAL_MICROS),
        }
    }

    pub fn version(&self) -> (version: &str)
        ensures
            version@ == self.version_text(),
    {
        self.version.as_str()
    }

    pub fn pre_burn_max_movement_ppm(&self) -> (ppm: u32)
        ensures
            ppm == self.idle_tolerance(),
    {
        self.pre_burn_max_movement_ppm
    }

    pub fn post_settlement_max_movement_ppm(&self) -> (ppm: u32)
        ensures
            ppm == self.drift_tolerance(),
    {
        self.post_settlement_max_movement_ppm
    }

    pub fn post_settlement_grace(&self) -> (grace: MonotonicDuration)
        ensures
            grace == self.grace(),
            grace.nanos != 0,
    {
        proof {
            use_type_invariant(self);
        }
        self.post_settlement_grace
    }

    pub fn flat_credits_min_meter_movement_ppm(&self) -> (ppm: u32)
        ensures
            ppm == self.substantial_movement(),
    {
        self.flat_credits_min_meter_movement_ppm
    }

    pub fn flat_credits_max_local(&self) -> (credits: Credits)
        ensures
            credits == self.flat_limit(),
    {
        self.flat_credits_max_local
    }
}

/// One meter reading.
#[derive(Debug, Clone, Copy, PartialEq, Eq, Structural)]
pub struct ContaminationMeterPoint {
    pub at: UtcTimestamp,
    pub quota_used: QuotaUsed,
}

impl ContaminationMeterPoint {
    pub fn new(at: UtcTimestamp, quota_used: QuotaUsed) -> (point: Self)
        ensures
            point.at == at,
            point.quota_used == quota_used,
    {
        ContaminationMeterPoint { at, quota_used }
    }

    pub fn at(self) -> (at: UtcTimestamp)
        ensures
            at == self.at,
    {
        self.at
    }

    pub fn quota_used(self) -> (used: QuotaUsed)
        ensures
            used == self.quota_used,
    {
        self.quota_used
    }
}

/// Which session was observed against which account, and when.
#[derive(Debug, Clone, PartialEq, Eq)]
pub struct ContaminationMarkerPoint {
    pub session_source: String,
    pub session_native: String,
    pub logical_account: String,
    pub observed_at: UtcTimestamp,
}

impl ContaminationMarkerPoint {
    /// The session as one piece of text: source, slash, native name.
    pub open spec fn session(self) -> Seq<char> {
        self.session_source@ + "/"@ + self.session_native@
    }

    pub fn new(
        session_source: &str,
        session_native: &str,
        logical_account: &str,
        observed_at: UtcTimestamp,
    ) -> (marker: Self)
        ensures
            marker.session_source@ == session_source@,
            marker.session_native@ == session_native@,
            marker.logical_account@ == logical_account@,
            marker.observed_at == observed_at,
    {
        ContaminationMarkerPoint {
            session_source: session_source.to_owned(),
            session_native: session_native.to_owned(),
            logical_account: logical_account.to_owned(),
            observed_at,
        }
    }

    pub fn session_source(&self) -> (source: &str)
        ensures
            source@ == self.session_source@,
    {
        self.session_source.as_str()
    }

    pub fn session_native(&self) -> (native: &str)
        ensures
            native@ == self.session_native@,
    {
        self.session_native.as_str()
    }

    pub fn logical_account(&self) -> (account: &str)
        ensures
            account@ == self.logical_account@,
    {
        self.logical_account.as_str()
    }

    pub fn observed_at(&self) -> (at: UtcTimestamp)
        ensures
            at == self.observed_at,
    {
        self.observed_at
    }

    /// The session as one display string, `source/native`.
    pub fn session_label(&self) -> (label: String)
        ensures
            label@ == self.session(),
    {
        let mut label: String = self.session_source.clone();
        label.append("/");
        label.append(self.session_native.as_str());
        label
    }
}

/// Everything the detector needs for one experiment at one instant. The window ends
/// where the experiment ended, or at the instant of evaluation while it runs.
#[derive(Debug, Clone, PartialEq, Eq)]
pub struct ContaminationInputs<'a> {
    pub experiment_account: &'a str,
    pub baseline_plateau_started_at: UtcTimestamp,
    pub started_at: UtcTimestamp,
    pub ended_at: Option<UtcTimestamp>,
    pub evaluated_at: UtcTimestamp,
    pub pre_burn_series: &'a [ContaminationMeterPoint],
    pub post_series: &'a [ContaminationMeterPoint],
    pub controlled_meter_start: QuotaUsed,
    pub controlled_meter_end: QuotaUsed,
    pub local_credits_delta: Credits,
    pub markers: &'a [ContaminationMarkerPoint],
}

impl<'a> ContaminationInputs<'a> {
    /// Where the experiment window ends.
    pub open spec fn work_end(&self) -> UtcTimestamp {
        match self.ended_at {
            Some(at) => at,
            None => self.evaluated_at,
        }
    }

    fn end_of_work(&self) -> (at: UtcTimestamp)
        ensures
            at == self.work_end(),
    {
        match self.ended_at {
            Some(at) => at,
            None => self.evaluated_at,
        }
    }
}

/// By how much a signal fired, in its own units.
#[derive(Debug, Clone, PartialEq, Eq)]
pub enum ContaminationMagnitude {
    PreBurnIdleMovement { movement_ppm: u32 },
    ExtendedSettlementDrift { movement_ppm: u32 },
    FlatCreditsWithMeterMovement { meter_movement_ppm: u32, local_credits_micros: i64 },
    OverlappingSession { sessions: Vec<String> },
}

/// What a magnitude says.
pub enum MagnitudeView {
    PreBurnIdleMovement { movement_ppm: int },
    ExtendedSettlementDrift { movement_ppm: int },
    FlatCreditsWithMeterMovement { meter_movement_ppm: int, local_credits_micros: int },
    OverlappingSession { sessions: Seq<Seq<char>> },
}

impl MagnitudeView {
    /// The signal a magnitude belongs to.
    pub open spec fn signal(self) -> ContaminationSignal {
        match self {
            MagnitudeView::PreBurnIdleMovement { .. } => ContaminationSignal::PreBurnIdleMovement,
            MagnitudeView::ExtendedSettlementDrift { .. } =>
                ContaminationSignal::ExtendedSettlementDrift,
            MagnitudeView::FlatCreditsWithMeterMovement { .. } =>
                ContaminationSignal::FlatCreditsWithMeterMovement,
            MagnitudeView::OverlappingSession { .. } => ContaminationSignal::OverlappingSession,
        }
    }

    /// The magnitude as a phrase.
    pub open spec fn text(self) -> Seq<char> {
        match self {
            MagnitudeView::PreBurnIdleMovement { movement_ppm } => "pre-burn movement of "@
                + decimal(movement_ppm as nat) + " ppm"@,
            MagnitudeView::ExtendedSettlementDrift { movement_ppm } =>
                "post-settlement movement of "@ + decimal(movement_ppm as nat) + " ppm"@,
            MagnitudeView::FlatCreditsWithMeterMovement {
                meter_movement_ppm,
                local_credits_micros,
            } => "meter moved "@ + decimal(meter_movement_ppm as nat)
                + " ppm while local credits totalled "@ + signed_decimal(local_credits_micros)
                + " micros"@,
            MagnitudeView::OverlappingSession { sessions } => decimal(sessions.len())
                + " overlapping session(s): "@ + joined(sessions, ", "@),
        }
    }
}

impl View for ContaminationMagnitude {
    type V = MagnitudeView;

    open spec fn view(&self) -> MagnitudeView {
        match *self {
            ContaminationMagnitude::PreBurnIdleMovement { movement_ppm } =>
                MagnitudeView::PreBurnIdleMovement { movement_ppm: movement_ppm as int },
            ContaminationMagnitude::ExtendedSettlementDrift { movement_ppm } =>
                MagnitudeView::ExtendedSettlementDrift { movement_ppm: movement_ppm as int },
            ContaminationMagnitude::FlatCreditsWithMeterMovement {
                meter_movement_ppm,
                local_credits_micros,
            } => MagnitudeView::FlatCreditsWithMeterMovement {
                meter_movement_ppm: meter_movement_ppm as int,
                local_credits_micros: local_credits_micros as int,
            },
            ContaminationMagnitude::OverlappingSession { sessions } =>
                MagnitudeView::OverlappingSession { sessions: texts(sessions@) },
        }
    }
}

impl ContaminationMagnitude {
    /// The signal this magnitude belongs to.
    pub fn signal(&self) -> (signal: ContaminationSignal)
        ensures
            signal == self@.signal(),
    {
        match self {
            ContaminationMagnitude::PreBurnIdleMovement { .. } =>
                ContaminationSignal::PreBurnIdleMovement,
            ContaminationMagnitude::ExtendedSettlementDrift { .. } =>
                ContaminationSignal::ExtendedSettlementDrift,
            ContaminationMagnitude::FlatCreditsWithMeterMovement { .. } =>
                ContaminationSignal::FlatCreditsWithMeterMovement,
            ContaminationMagnitude::OverlappingSession { .. } =>
                ContaminationSignal::OverlappingSession,
        }
    }

    /// Renders the magnitude as a phrase.
    pub fn describe(&self) -> (phrase: String)
        ensures
            phrase@ == self@.text(),
    {
        match self {
            ContaminationMagnitude::PreBurnIdleMovement { movement_ppm } => {
                let mut phrase: String = "pre-burn movement of ".to_owned();
                phrase.append(decimal_text(*movement_ppm as u128).as_str());
                phrase.append(" ppm");
                phrase
            },
            ContaminationMagnitude::ExtendedSettlementDrift { movement_ppm } => {
                let mut phrase: String = "post-settlement movement of ".to_owned();
                phrase.append(decimal_text(*movement_ppm as u128).as_str());
                phrase.append(" ppm");
                phrase
            },
            ContaminationMagnitude::FlatCreditsWithMeterMovement {
                meter_movement_ppm,
                local_credits_micros,
            } => {
                let mut phrase: String = "meter moved ".to_owned();
                phrase.append(decimal_text(*meter_movement_ppm as u128).as_str());
                phrase.append(" ppm while local credits totalled ");
                phrase.append(signed_decimal_text(*local_credits_micros).as_str());
                phrase.append(" micros");
                phrase
            },
            ContaminationMagnitude::OverlappingSession { sessions } => {
                let mut phrase: String = decimal_text(sessions.len() as u128);
                phrase.append(" overlapping session(s): ");
                phrase.append(join_texts(sessions, ", ").as_str());
                phrase
            },
        }
    }

    fn copied(&self) -> (copy: Self)
        ensures
            copy@ == self@,
    {
        match self {
            ContaminationMagnitude::PreBurnIdleMovement { movement_ppm } =>
                ContaminationMagnitude::PreBurnIdleMovement { movement_ppm: *movement_ppm },
            ContaminationMagnitude::ExtendedSettlementDrift { movement_ppm } =>
                ContaminationMagnitude::ExtendedSettlementDrift { movement_ppm: *movement_ppm },
            ContaminationMagnitude::FlatCreditsWithMeterMovement {
                meter_movement_ppm,
                local_credits_micros,
            } => ContaminationMagnitude::FlatCreditsWithMeterMovement {
                meter_movement_ppm: *meter_movement_ppm,
                local_credits_micros: *local_credits_micros,
            },
            ContaminationMagnitude::OverlappingSession { sessions } =>
                ContaminationMagnitude::OverlappingSession { sessions: copied_texts(sessions) },
        }
    }
}

/// One fired signal with its magnitude and the threshold it exceeded.
#[derive(Debug, Clone, PartialEq, Eq)]
pub struct ContaminationFinding {
    pub signal: ContaminationSignal,
    pub magnitude: ContaminationMagnitude,
    pub detail: String,
}

/// What a finding says.
pub struct FindingView {
    pub signal: ContaminationSignal,
    pub magnitude: MagnitudeView,
    pub detail: Seq<char>,
}

impl FindingView {
    /// The finding in one line: signal, colon, magnitude.
    pub open spec fn line(self) -> Seq<char> {
        self.signal.name() + ": "@ + self.magnitude.text()
    }
}

impl View for ContaminationFinding {
    type V = FindingView;

    open spec fn view(&self) -> FindingView {
        FindingView {
            signal: self.signal,
            magnitude: self.magnitude@,
            detail: self.detail@,
        }
    }
}

impl ContaminationFinding {
    /// One line naming the signal and its magnitude.
    pub fn summary(&self) -> (line: String)
        ensures
            line@ == self@.line(),
    {
        let mut line: String = self.signal.label().to_owned();
        line.append(": ");
        line.append(self.magnitude.describe().as_str());
        line
    }
}

/// Every signal that fired. An empty verdict is a clean experiment.
#[derive(Debug, Clone, PartialEq, Eq)]
pub struct ContaminationVerdict {
    findings: Vec<ContaminationFinding>,
}

impl View for ContaminationVerdict {
    type V = Seq<FindingView>;

    closed spec fn view(&self) -> Seq<FindingView> {
        self.findings@.map_values(|f: ContaminationFinding| f@)
    }
}

/// The one-line summaries of some findings.
pub open spec fn lines(findings: Seq<FindingView>) -> Seq<Seq<char>> {
    findings.map_values(|f: FindingView| f.line())
}

impl ContaminationVerdict {
    pub fn clean() -> (verdict: Self)
        ensures
            verdict@ == Seq::<FindingView>::empty(),
    {
        let verdict: ContaminationVerdict = ContaminationVerdict { findings: Vec::new() };
        assert(verdict@ =~= Seq::empty());
        verdict
    }

    pub fn is_contaminated(&self) -> (contaminated: bool)
        ensures
            contaminated == (self@.len() > 0),
    {
        self.findings.len() > 0
    }

    pub fn findings(&self) -> (findings: &[ContaminationFinding])
        ensures
            findings@.map_values(|f: ContaminationFinding| f@) == self@,
    {
        self.findings.as_slice()
    }

    pub fn findings_for(&self, signal: ContaminationSignal) -> (found: Vec<&ContaminationFinding>)
        ensures
            found@.map_values(|f: &ContaminationFinding| f@) == self@.filter(
                |f: FindingView| f.signal == signal,
            ),
    {
        let mut found: Vec<&ContaminationFinding> = Vec::new();
        let mut i: usize = 0;
        let ghost wanted = |f: FindingView| f.signal == signal;
        let ghost as_view = |f: &ContaminationFinding| f@;
        proof {
            reveal(Seq::filter);
            assert(found@.map_values(as_view) =~= self@.take(0).filter(wanted));
        }
        while i < self.findings.len()
            invariant
                i <= self.findings@.len(),
                self.findings@.len() == self@.len(),
                wanted == (|f: FindingView| f.signal == signal),
                as_view == (|f: &ContaminationFinding| f@),
                found@.map_values(as_view) == self@.take(i as int).filter(wanted),
            decreases self.findings@.len() - i,
        {
            proof {
                reveal(Seq::filter);
                let next = self@.take(i + 1);
                assert(next.drop_last() =~= self@.take(i as int));
                assert(next.last() == self.findings@[i as int]@);
            }
            let ghost before = found@;
            if self.findings[i].signal == signal {
                found.push(&self.findings[i]);
                assert(found@.map_values(as_view) =~= before.map_values(as_view).push(
                    self.findings@[i as int]@,
                ));
            }
            i = i + 1;
        }
        assert(self@.take(self@.len() as int) =~= self@);
        found
    }

    /// The mark on a fit made from a contaminated experiment, naming every signal that
    /// fired with its magnitude. A clean fit carries no mark.
    pub fn contamination_mark(&self) -> (mark: Option<String>)
        ensures
            match mark {
                Some(text) => self@.len() > 0 && text@ == "contaminated("@ + joined(
                    lines(self@),
                    "; "@,
                ) + ")"@,
                None => self@.len() == 0,
            },
    {
        if self.findings.len() == 0 {
            return None;
        }
        let mut parts: Vec<String> = Vec::new();
        let mut i: usize = 0;
        assert(texts(parts@) =~= lines(self@).take(0));
        while i < self.findings.len()
            invariant
                i <= self.findings@.len(),
                self.findings@.len() == self@.len(),
                texts(parts@) == lines(self@).take(i as int),
            decreases self.findings@.len() - i,
        {
            let ghost before = parts@;
            parts.push(self.findings[i].summary());
            assert(texts(parts@) =~= lines(self@).take(i + 1)) by {
                assert(texts(parts@) =~= texts(before).push(parts@.last()@));
                assert(self@[i as int] == self.findings@[i as int]@);
            }
            i = i + 1;
        }
        assert(lines(self@).take(self@.len() as int) =~= lines(self@));
        let mut mark: String = "contaminated(".to_owned();
        mark.append(join_texts(&parts, "; ").as_str());
        mark.append(")");
        Some(mark)
    }
}

/// The lowest and the highest of the readings that `keep` admits.
pub open spec fn extremes(
    points: Seq<ContaminationMeterPoint>,
    keep: spec_fn(ContaminationMeterPoint) -> bool,
) -> Option<(int, int)>
    decreases points.len(),
{
    if points.len() == 0 {
        None
    } else {
        let before = extremes(points.drop_last(), keep);
        let used = points.last().quota_used@;
        if !keep(points.last()) {
            before
        } else {
            match before {
                None => Some((used, used)),
                Some((low, high)) => Some(
                    (
                        if used < low {
                            used
                        } else {
                            low
                        },
                        if used > high {
                            used
                        } else {
                            high
                        },
                    ),
                ),
            }
        }
    }
}

/// How far the admitted readings are apart at most.
pub open spec fn movement(
    points: Seq<ContaminationMeterPoint>,
    keep: spec_fn(ContaminationMeterPoint) -> bool,
) -> int {
    match extremes(points, keep) {
        Some((low, high)) => high - low,
        None => 0,
    }
}

/// Whether a reading lies in the asserted idle period.
pub open spec fn asserted_idle(inputs: ContaminationInputs) -> spec_fn(
    ContaminationMeterPoint,
) -> bool {
    |p: ContaminationMeterPoint|
        inputs.baseline_plateau_started_at.nanos <= p.at.nanos <= inputs.started_at.nanos
}

/// Whether a reading lies past the end of work and the grace that follows it.
pub open spec fn past_grace(
    inputs: ContaminationInputs,
    thresholds: ContaminationThresholds,
) -> spec_fn(ContaminationMeterPoint) -> bool {
    |p: ContaminationMeterPoint|
        p.at.nanos > clamped(inputs.work_end().nanos + clamped(thresholds.grace().nanos as int))
}

/// The finding of movement in the asserted idle period, where there is one.
pub open spec fn idle_finding(
    inputs: ContaminationInputs,
    thresholds: ContaminationThresholds,
) -> Option<FindingView> {
    let moved = movement(inputs.pre_burn_series@, asserted_idle(inputs));
    if moved > thresholds.idle_tolerance() {
        Some(
            FindingView {
                signal: ContaminationSignal::PreBurnIdleMovement,
                magnitude: MagnitudeView::PreBurnIdleMovement { movement_ppm: moved },
                detail: "quota moved "@ + decimal(moved as nat)
                    + " ppm inside the asserted idle plateau, above the recorded tolerance of "@
                    + decimal(thresholds.idle_tolerance() as nat) + " ppm"@,
            },
        )
    } else {
        None
    }
}

/// The finding of movement past the settlement grace, where there is one.
pub open spec fn drift_finding(
    inputs: ContaminationInputs,
    thresholds: ContaminationThresholds,
) -> Option<FindingView> {
    let moved = movement(inputs.post_series@, past_grace(inputs, thresholds));
    if moved > thresholds.drift_tolerance() {
        Some(
            FindingView {
                signal: ContaminationSignal::ExtendedSettlementDrift,
                magnitude: MagnitudeView::ExtendedSettlementDrift { movement_ppm: moved },
                detail: "quota moved "@ + decimal(moved as nat)
                    + " ppm past the settlement grace, above the recorded tolerance of "@
                    + decimal(thresholds.drift_tolerance() as nat)
                    + " ppm; either contamination or a wrong lag model"@,
            },
        )
    } else {
        None
    }
}

/// The finding of meter movement without local credits, where there is one.
pub open spec fn flat_finding(
    inputs: ContaminationInputs,
    thresholds: ContaminationThresholds,
) -> Option<FindingView> {
    let moved = distance(inputs.controlled_meter_start@, inputs.controlled_meter_end@);
    let micros = inputs.local_credits_delta.micros as int;
    if moved >= thresholds.substantial_movement() && micros <= thresholds.flat_limit().micros {
        Some(
            FindingView {
                signal: ContaminationSignal::FlatCreditsWithMeterMovement,
                magnitude: MagnitudeView::FlatCreditsWithMeterMovement {
                    meter_movement_ppm: moved,
                    local_credits_micros: micros,
                },
                detail: "meter moved "@ + decimal(moved as nat)
                    + " ppm across controlled work while local credits totalled "@
                    + signed_decimal(micros) + " micros (flat at or under "@ + signed_decimal(
                    thresholds.flat_limit().micros as int,
                ) + " micros)"@,
            },
        )
    } else {
        None
    }
}

/// Whether a marker puts a session on the account inside the experiment window.
pub open spec fn overlaps(inputs: ContaminationInputs, marker: ContaminationMarkerPoint) -> bool {
    &&& marker.logical_account@ == inputs.experiment_account@
    &&& inputs.started_at.nanos <= marker.observed_at.nanos <= inputs.work_end().nanos
}

/// The sessions of the markers that overlap, in the order of the markers.
pub open spec fn overlapping(
    inputs: ContaminationInputs,
    markers: Seq<ContaminationMarkerPoint>,
) -> Seq<Seq<char>>
    decreases markers.len(),
{
    if markers.len() == 0 {
        Seq::empty()
    } else {
        let before = overlapping(inputs, markers.drop_last());
        if overlaps(inputs, markers.last()) {
            before.push(markers.last().session())
        } else {
            before
        }
    }
}

/// The finding of other sessions on the account, where there is one.
pub open spec fn overlap_finding(inputs: ContaminationInputs) -> Option<FindingView> {
    let sessions = ordered_set(overlapping(inputs, inputs.markers@));
    if sessions.len() > 0 {
        Some(
            FindingView {
                signal: ContaminationSignal::OverlappingSession,
                magnitude: MagnitudeView::OverlappingSession { sessions },
                detail: decimal(sessions.len())
                    + " other session(s) marked against the same account inside the experiment window"@,
            },
        )
    } else {
        None
    }
}

/// A list with one more entry, where there is one.
pub open spec fn with_finding(
    findings: Seq<FindingView>,
    finding: Option<FindingView>,
) -> Seq<FindingView> {
    match finding {
        Some(f) => findings.push(f),
        None => findings,
    }
}

/// Every finding for an experiment, in the order of evaluation.
pub open spec fn contamination(
    inputs: ContaminationInputs,
    thresholds: ContaminationThresholds,
) -> Seq<FindingView> {
    let idle = with_finding(Seq::empty(), idle_finding(inputs, thresholds));
    let drift = with_finding(idle, drift_finding(inputs, thresholds));
    let flat = with_finding(drift, flat_finding(inputs, thresholds));
    with_finding(flat, overlap_finding(inputs))
}

/// The text of a tolerance message: lead, movement, middle, tolerance, tail.
fn movement_detail(lead: &str, moved: u32, middle: &str, tolerance: u32, tail: &str) -> (detail:
    String)
    ensures
        detail@ == lead@ + decimal(moved as nat) + middle@ + decimal(tolerance as nat) + tail@,
{
    let mut detail: String = lead.to_owned();
    detail.append(decimal_text(moved as u128).as_str());
    detail.append(middle);
    detail.append(decimal_text(tolerance as u128).as_str());
    detail.append(tail);
    detail
}

fn widened(range: Option<(u32, u32)>, used: u32) -> (wider: (u32, u32))
    ensures
        wider == match range {
            None => (used, used),
            Some((low, high)) => (
                if used < low {
                    used
                } else {
                    low
                },
                if used > high {
                    used
                } else {
                    high
                },
            ),
        },
{
    match range {
        None => (used, used),
        Some((low, high)) => (
            if used < low {
                used
            } else {
                low
            },
            if used > high {
                used
            } else {
                high
            },
        ),
    }
}

/// A range of readings as integers.
spec fn range_view(range: Option<(u32, u32)>) -> Option<(int, int)> {
    match range {
        None => None,
        Some((low, high)) => Some((low as int, high as int)),
    }
}

proof fn lemma_extremes_ordered(
    points: Seq<ContaminationMeterPoint>,
    keep: spec_fn(ContaminationMeterPoint) -> bool,
)
    ensures
        extremes(points, keep) matches Some((low, high)) ==> low <= high,
    decreases points.len(),
{
    if points.len() > 0 {
        lemma_extremes_ordered(points.drop_last(), keep);
    }
}

fn check_pre_burn_idle(
    inputs: &ContaminationInputs<'_>,
    thresholds: &ContaminationThresholds,
) -> (finding: Option<ContaminationFinding>)
    ensures
        match finding {
            Some(f) => idle_finding(*inputs, *thresholds) == Some(f@),
            None => idle_finding(*inputs, *thresholds) is None,
        },
{
    let ghost keep = asserted_idle(*inputs);
    let series: &[ContaminationMeterPoint] = inputs.pre_burn_series;
    let mut range: Option<(u32, u32)> = None;
    let mut i: usize = 0;
    assert(series@.take(0) =~= Seq::empty());
    while i < series.len()
        invariant
            i <= series@.len(),
            keep == asserted_idle(*inputs),
            range_view(range) == extremes(series@.take(i as int), keep),
        decreases series@.len() - i,
    {
        let point: ContaminationMeterPoint = series[i];
        assert(series@.take(i + 1).drop_last() =~= series@.take(i as int));
        if point.at.unix_nanos() >= inputs.baseline_plateau_started_at.unix_nanos()
            && point.at.unix_nanos() <= inputs.started_at.unix_nanos() {
            range = Some(widened(range, point.quota_used.as_ppm().get()));
        }
        i = i + 1;
    }
    assert(series@.take(series@.len() as int) =~= series@);
    proof {
        lemma_extremes_ordered(series@, keep);
    }
    match range {
        None => None,
        Some((low, high)) => {
            let moved: u32 = high - low;
            if moved > thresholds.pre_burn_max_movement_ppm {
                Some(
                    ContaminationFinding {
                        signal: ContaminationSignal::PreBurnIdleMovement,
                        magnitude: ContaminationMagnitude::PreBurnIdleMovement {
                            movement_ppm: moved,
                        },
                        detail: movement_detail(
                            "quota moved ",
                            moved,
                            " ppm inside the asserted idle plateau, above the recorded tolerance of ",
                            thresholds.pre_burn_max_movement_ppm,
                            " ppm",
                        ),
                    },
                )
            } else {
                None
            }
        },
    }
}

fn check_extended_settlement_drift(
    inputs: &ContaminationInputs<'_>,
    thresholds: &ContaminationThresholds,
) -> (finding: Option<ContaminationFinding>)
    ensures
        match finding {
            Some(f) => drift_finding(*inputs, *thresholds) == Some(f@),
            None => drift_finding(*inputs, *thresholds) is None,
        },
{
    let ghost keep = past_grace(*inputs, *thresholds);
    let work_end: i64 = inputs.end_of_work().unix_nanos();
    let grace: u64 = thresholds.post_settlement_grace.as_nanos();
    let grace_nanos: i128 = if grace > i64::MAX as u64 {
        i64::MAX as i128
    } else {
        grace as i128
    };
    let sum: i128 = work_end as i128 + grace_nanos;
    let drift_start: i64 = if sum > i64::MAX as i128 {
        i64::MAX
    } else {
        sum as i64
    };
    let series: &[ContaminationMeterPoint] = inputs.post_series;
    let mut range: Option<(u32, u32)> = None;
    let mut i: usize = 0;
    assert(series@.take(0) =~= Seq::empty());
    while i < series.len()
        invariant
            i <= series@.len(),
            keep == past_grace(*inputs, *thresholds),
            drift_start == clamped(
                inputs.work_end().nanos + clamped(thresholds.grace().nanos as int),
            ),
            range_view(range) == extremes(series@.take(i as int), keep),
        decreases series@.len() - i,
    {
        let point: ContaminationMeterPoint = series[i];
        assert(series@.take(i + 1).drop_last() =~= series@.take(i as int));
        if point.at.unix_nanos() > drift_start {
            range = Some(widened(range, point.quota_used.as_ppm().get()));
        }
        i = i + 1;
    }
    assert(series@.take(series@.len() as int) =~= series@);
    proof {
        lemma_extremes_ordered(series@, keep);
    }
    match range {
        None => None,
        Some((low, high)) => {
            let moved: u32 = high - low;
            if moved > thresholds.post_settlement_max_movement_ppm {
                Some(
                    ContaminationFinding {
                        signal: ContaminationSignal::ExtendedSettlementDrift,
                        magnitude: ContaminationMagnitude::ExtendedSettlementDrift {
                            movement_ppm: moved,
                        },
                        detail: movement_detail(
                            "quota moved ",
                            moved,
                            " ppm past the settlement grace, above the recorded tolerance of ",
                            thresholds.post_settlement_max_movement_ppm,
                            " ppm; either contamination or a wrong lag model",
                        ),
                    },
                )
            } else {
                None
            }
        },
    }
}

fn check_flat_credits(
    inputs: &ContaminationInputs<'_>,
    thresholds: &ContaminationThresholds,
) -> (finding: Option<ContaminationFinding>)
    ensures
        match finding {
            Some(f) => flat_finding(*inputs, *thresholds) == Some(f@),
            None => flat_finding(*inputs, *thresholds) is None,
        },
{
    let start: u32 = inputs.controlled_meter_start.as_ppm().get();
    let end: u32 = inputs.controlled_meter_end.as_ppm().get();
    let moved: u32 = if start < end {
        end - start
    } else {
        start - end
    };
    let micros: i64 = inputs.local_credits_delta.micros();
    let limit: i64 = thresholds.flat_credits_max_local.micros();
    if moved >= thresholds.flat_credits_min_meter_movement_ppm && micros <= limit {
        let mut detail: String = "meter moved ".to_owned();
        detail.append(decimal_text(moved as u128).as_str());
        detail.append(" ppm across controlled work while local credits totalled ");
        detail.append(signed_decimal_text(micros).as_str());
        detail.append(" micros (flat at or under ");
        detail.append(signed_decimal_text(limit).as_str());
        detail.append(" micros)");
        Some(
            ContaminationFinding {
                signal: ContaminationSignal::FlatCreditsWithMeterMovement,
                magnitude: ContaminationMagnitude::FlatCreditsWithMeterMovement {
                    meter_movement_ppm: moved,
                    local_credits_micros: micros,
                },
                detail,
            },
        )
    } else {
        None
    }
}

fn check_overlapping_sessions(inputs: &ContaminationInputs<'_>) -> (finding: Option<
    ContaminationFinding,
>)
    ensures
        match finding {
            Some(f) => overlap_finding(*inputs) == Some(f@),
            None => overlap_finding(*inputs) is None,
        },
{
    let window_end: UtcTimestamp = inputs.end_of_work();
    let markers: &[ContaminationMarkerPoint] = inputs.markers;
    let mut sessions: Vec<String> = Vec::new();
    let mut i: usize = 0;
    assert(markers@.take(0) =~= Seq::empty());
    assert(texts(sessions@) =~= Seq::empty());
    while i < markers.len()
        invariant
            i <= markers@.len(),
            window_end == inputs.work_end(),
            texts(sessions@) == ordered_set(overlapping(*inputs, markers@.take(i as int))),
        decreases markers@.len() - i,
    {
        proof {
            let next = markers@.take(i + 1);
            assert(next.drop_last() =~= markers@.take(i as int));
            let before = overlapping(*inputs, markers@.take(i as int));
            assert(before.push(next.last().session()).drop_last() =~= before);
        }
        let marker: &ContaminationMarkerPoint = &markers[i];
        if same_text(marker.logical_account.as_str(), inputs.experiment_account)
            && marker.observed_at.unix_nanos() >= inputs.started_at.unix_nanos()
            && marker.observed_at.unix_nanos() <= window_end.unix_nanos() {
            insert_text(&mut sessions, marker.session_label());
        }
        i = i + 1;
    }
    assert(markers@.take(markers@.len() as int) =~= markers@);
    if sessions.len() == 0 {
        None
    } else {
        let mut detail: String = decimal_text(sessions.len() as u128);
        detail.append(
            " other session(s) marked against the same account inside the experiment window",
        );
        Some(
            ContaminationFinding {
                signal: ContaminationSignal::OverlappingSession,
                magnitude: ContaminationMagnitude::OverlappingSession { sessions },
                detail,
            },
        )
    }
}

/// Evaluates all four signals and collects each that fires.
pub fn evaluate_contamination(
    inputs: &ContaminationInputs<'_>,
    thresholds: &ContaminationThresholds,
) -> (verdict: ContaminationVerdict)
    ensures
        verdict@ == contamination(*inputs, *thresholds),
{
    let mut findings: Vec<ContaminationFinding> = Vec::new();
    let ghost as_view = |f: ContaminationFinding| f@;
    assert(findings@.map_values(as_view) =~= Seq::empty());
    match check_pre_burn_idle(inputs, thresholds) {
        Some(finding) => {
            findings.push(finding);
        },
        None => {},
    }
    assert(findings@.map_values(as_view) =~= with_finding(
        Seq::empty(),
        idle_finding(*inputs, *thresholds),
    ));
    let ghost idle = findings@;
    match check_extended_settlement_drift(inputs, thresholds) {
        Some(finding) => {
            findings.push(finding);
        },
        None => {},
    }
    assert(findings@.map_values(as_view) =~= with_finding(
        idle.map_values(as_view),
        drift_finding(*inputs, *thresholds),
    ));
    let ghost drift = findings@;
    match check_flat_credits(inputs, thresholds) {
        Some(finding) => {
            findings.push(finding);
        },
        None => {},
    }
    assert(findings@.map_values(as_view) =~= with_finding(
        drift.map_values(as_view),
        flat_finding(*inputs, *thresholds),
    ));
    let ghost flat = findings@;
    match check_overlapping_sessions(inputs) {
        Some(finding) => {
            findings.push(finding);
        },
        None => {},
    }
    assert(findings@.map_values(as_view) =~= with_finding(
        flat.map_values(as_view),
        overlap_finding(*inputs),
    ));
    ContaminationVerdict { findings }
}

/// A candidate refused for activation, with the first signal that fired.
#[derive(Debug, Clone, PartialEq, Eq)]
pub struct ContaminatedCandidateRefusal {
    pub signal: ContaminationSignal,
    pub magnitude: ContaminationMagnitude,
}

impl ContaminatedCandidateRefusal {
    /// The sentence shown for this refusal.
    pub open spec fn text(&self) -> Seq<char> {
        "candidate refused for activation: contaminated by "@ + self.signal.name() + ": "@
            + self.magnitude@.text()
    }

    /// Renders the refusal as a sentence.
    pub fn message(&self) -> (message: String)
        ensures
            message@ == self.text(),
    {
        let mut message: String = "candidate refused for activation: contaminated by ".to_owned();
        message.append(self.signal.label());
        message.append(": ");
        message.append(self.magnitude.describe().as_str());
        message
    }
}

/// Whether an experiment may go on to activation: one without findings may, and any
/// finding refuses it with the first signal named.
pub fn require_uncontaminated_for_activation(verdict: &ContaminationVerdict) -> (outcome: Result<
    (),
    ContaminatedCandidateRefusal,
>)
    ensures
        match outcome {
            Ok(()) => verdict@.len() == 0,
            Err(refusal) => verdict@.len() > 0 && refusal.signal == verdict@[0].signal
                && refusal.magnitude@ == verdict@[0].magnitude,
        },
{
    if verdict.findings.len() == 0 {
        Ok(())
    } else {
        assert(verdict@[0] == verdict.findings@[0]@);
        Err(
            ContaminatedCandidateRefusal {
                signal: verdict.findings[0].signal,
                magnitude: verdict.findings[0].magnitude.copied(),
            },
        )
    }
}

/// The movement exceeds a tolerance exactly where two admitted readings differ by more
/// than it.
pub proof fn law_movement_is_the_widest_difference(
    points: Seq<ContaminationMeterPoint>,
    keep: spec_fn(ContaminationMeterPoint) -> bool,
    tolerance: nat,
)
    ensures
        movement(points, keep) > tolerance <==> exists|i: int, j: int|
            0 <= i < points.len() && 0 <= j < points.len() && keep(#[trigger] points[i]) && keep(
                #[trigger] points[j],
            ) && points[j].quota_used@ - points[i].quota_used@ > tolerance,
{
    lemma_extremes_reached(points, keep);
    if movement(points, keep) > tolerance {
        let (i, j) = choose|i: int, j: int|
            0 <= i < points.len() && 0 <= j < points.len() && keep(#[trigger] points[i]) && keep(
                #[trigger] points[j],
            ) && points[j].quota_used@ - points[i].quota_used@ == movement(points, keep);
        assert(points[j].quota_used@ - points[i].quota_used@ > tolerance);
    }
}

proof fn lemma_extremes_reached(
    points: Seq<ContaminationMeterPoint>,
    keep: spec_fn(ContaminationMeterPoint) -> bool,
)
    ensures
        match extremes(points, keep) {
            None => forall|i: int| 0 <= i < points.len() ==> !keep(#[trigger] points[i]),
            Some((low, high)) => {
                &&& forall|i: int|
                    0 <= i < points.len() && keep(#[trigger] points[i]) ==> low
                        <= points[i].quota_used@ <= high
                &&& exists|i: int, j: int|
                    0 <= i < points.len() && 0 <= j < points.len() && keep(#[trigger] points[i])
                        && keep(#[trigger] points[j]) && points[i].quota_used@ == low
                        && points[j].quota_used@ == high
            },
        },
    decreases points.len(),
{
    if points.len() > 0 {
        let shorter = points.drop_last();
        let n = points.len() - 1;
        lemma_extremes_reached(shorter, keep);
        assert forall|i: int| 0 <= i < n implies points[i] == #[trigger] shorter[i] by {}
        match extremes(shorter, keep) {
            None => {
                if keep(points.last()) {
                    assert(keep(points[n]));
                    assert forall|i: int| 0 <= i < points.len() && keep(#[trigger] points[i]) implies i
                        == n by {
                        if i < n {
                            assert(!keep(shorter[i]));
                        }
                    }
                } else {
                    assert forall|i: int| 0 <= i < points.len() implies !keep(
                        #[trigger] points[i],
                    ) by {
                        if i < n {
                            assert(!keep(shorter[i]));
                        }
                    }
                }
            },
            Some((low, high)) => {
                let (a, b) = choose|i: int, j: int|
                    0 <= i < shorter.len() && 0 <= j < shorter.len() && keep(#[trigger] shorter[i])
                        && keep(#[trigger] shorter[j]) && shorter[i].quota_used@ == low
                        && shorter[j].quota_used@ == high;
                let used = points[n].quota_used@;
                let lower = if keep(points[n]) && used < low {
                    n
                } else {
                    a
                };
                let upper = if keep(points[n]) && used > high {
                    n
                } else {
                    b
                };
                assert(keep(points[lower]) && keep(points[upper]));
                assert forall|i: int| 0 <= i < n && keep(#[trigger] points[i]) implies low
                    <= points[i].quota_used@ <= high by {
                    assert(keep(shorter[i]));
                }
            },
        }
    }
}

/// A verdict is clean exactly where no signal fires, and it names each fired signal
/// once: no signal hides another.
pub proof fn law_every_signal_is_reported(
    inputs: ContaminationInputs,
    thresholds: ContaminationThresholds,
    signal: ContaminationSignal,
)
    ensures
        contamination(inputs, thresholds).len() == 0 <==> (idle_finding(inputs, thresholds) is None
            && drift_finding(inputs, thresholds) is None && flat_finding(
            inputs,
            thresholds,
        ) is None && overlap_finding(inputs) is None),
        forall|i: int|
            0 <= i < contamination(inputs, thresholds).len() ==> (#[trigger] contamination(
                inputs,
                thresholds,
            )[i]).signal == contamination(inputs, thresholds)[i].magnitude.signal(),
        (exists|i: int|
            0 <= i < contamination(inputs, thresholds).len() && (#[trigger] contamination(
                inputs,
                thresholds,
            )[i]).signal == signal) <==> match signal {
            ContaminationSignal::PreBurnIdleMovement => idle_finding(inputs, thresholds) is Some,
            ContaminationSignal::ExtendedSettlementDrift => drift_finding(
                inputs,
                thresholds,
            ) is Some,
            ContaminationSignal::FlatCreditsWithMeterMovement => flat_finding(
                inputs,
                thresholds,
            ) is Some,
            ContaminationSignal::OverlappingSession => overlap_finding(inputs) is Some,
        },
        forall|i: int, j: int|
            0 <= i < j < contamination(inputs, thresholds).len() ==> (#[trigger] contamination(
                inputs,
                thresholds,
            )[i]).signal != (#[trigger] contamination(inputs, thresholds)[j]).signal,
{
    let all = contamination(inputs, thresholds);
    let idle = with_finding(Seq::empty(), idle_finding(inputs, thresholds));
    let drift = with_finding(idle, drift_finding(inputs, thresholds));
    let flat = with_finding(drift, flat_finding(inputs, thresholds));
    if idle_finding(inputs, thresholds) is Some {
        assert(all[0] == idle_finding(inputs, thresholds)->0);
    }
    if drift_finding(inputs, thresholds) is Some {
        assert(all[idle.len() as int] == drift_finding(inputs, thresholds)->0);
    }
    if flat_finding(inputs, thresholds) is Some {
        assert(all[drift.len() as int] == flat_finding(inputs, thresholds)->0);
    }
    if overlap_finding(inputs) is Some {
        assert(all[flat.len() as int] == overlap_finding(inputs)->0);
    }
}

/// The overlap signal fires exactly where some marker puts a session on the account
/// inside the window, and it names those sessions and no others.
pub proof fn law_overlap_names_the_marked_sessions(inputs: ContaminationInputs)
    ensures
        overlap_finding(inputs) is Some <==> exists|i: int|
            0 <= i < inputs.markers@.len() && overlaps(inputs, #[trigger] inputs.markers@[i]),
        overlap_finding(inputs) is Some ==> forall|label: Seq<char>| #[trigger]
            overlap_finding(inputs)->0.magnitude->sessions.contains(label) <==> exists|i: int|
                0 <= i < inputs.markers@.len() && overlaps(inputs, #[trigger] inputs.markers@[i])
                    && inputs.markers@[i].session() == label,
{
    let markers = inputs.markers@;
    let found = overlapping(inputs, markers);
    lemma_overlapping(inputs, markers);
    lemma_ordered_set(found);
    let sessions = ordered_set(found);
    if sessions.len() > 0 {
        assert(sessions.contains(sessions[0]));
        assert(found.contains(sessions[0]));
    }
    if exists|i: int| 0 <= i < markers.len() && overlaps(inputs, #[trigger] markers[i]) {
        let i = choose|i: int| 0 <= i < markers.len() && overlaps(inputs, #[trigger] markers[i]);
        assert(found.contains(markers[i].session()));
        assert(sessions.contains(markers[i].session()));
    }
}

proof fn lemma_overlapping(inputs: ContaminationInputs, markers: Seq<ContaminationMarkerPoint>)
    ensures
        forall|label: Seq<char>| #[trigger]
            overlapping(inputs, markers).contains(label) <==> exists|i: int|
                0 <= i < markers.len() && overlaps(inputs, #[trigger] markers[i])
                    && markers[i].session() == label,
    decreases markers.len(),
{
    if markers.len() > 0 {
        let shorter = markers.drop_last();
        let n = markers.len() - 1;
        lemma_overlapping(inputs, shorter);
        let before = overlapping(inputs, shorter);
        let found = overlapping(inputs, markers);
        assert forall|label: Seq<char>| #[trigger] found.contains(label) <==> exists|i: int|
            0 <= i < markers.len() && overlaps(inputs, #[trigger] markers[i])
                && markers[i].session() == label by {
            if found.contains(label) {
                let k = choose|k: int| 0 <= k < found.len() && found[k] == label;
                if k < before.len() {
                    assert(before[k] == label);
                    assert(before.contains(label));
                    let i = choose|i: int|
                        0 <= i < shorter.len() && overlaps(inputs, #[trigger] shorter[i])
                            && shorter[i].session() == label;
                    assert(overlaps(inputs, markers[i]));
                } else {
                    assert(overlaps(inputs, markers[n]));
                }
            }
            if exists|i: int|
                0 <= i < markers.len() && overlaps(inputs, #[trigger] markers[i])
                    && markers[i].session() == label {
                let i = choose|i: int|
                    0 <= i < markers.len() && overlaps(inputs, #[trigger] markers[i])
                        && markers[i].session() == label;
                if i < n {
                    assert(overlaps(inputs, shorter[i]));
                    assert(before.contains(label));
                    let k = choose|k: int| 0 <= k < before.len() && before[k] == label;
                    assert(found[k] == label);
                } else {
                    assert(found[before.len() as int] == label);
                }
            }
        }
    }
}

/// Movement is found inside the asserted idle plateau exactly where two readings taken
/// from the start of the plateau to the start of the work differ by more than is
/// tolerated; and what is found is the greatest difference there is.
pub proof fn law_idle_movement_is_found(
    inputs: ContaminationInputs,
    thresholds: ContaminationThresholds,
)
    ensures
        idle_finding(inputs, thresholds) is Some <==> exists|i: int, j: int|
            0 <= i < inputs.pre_burn_series@.len() && 0 <= j < inputs.pre_burn_series@.len()
                && inputs.baseline_plateau_started_at.nanos
                <= (#[trigger] inputs.pre_burn_series@[i]).at.nanos <= inputs.started_at.nanos
                && inputs.baseline_plateau_started_at.nanos
                <= (#[trigger] inputs.pre_burn_series@[j]).at.nanos <= inputs.started_at.nanos
                && inputs.pre_burn_series@[j].quota_used@ - inputs.pre_burn_series@[i].quota_used@
                > thresholds.idle_tolerance(),
        idle_finding(inputs, thresholds) matches Some(finding) ==> {
            &&& finding.signal == ContaminationSignal::PreBurnIdleMovement
            &&& finding.magnitude matches MagnitudeView::PreBurnIdleMovement { movement_ppm }
            &&& forall|i: int, j: int|
                0 <= i < inputs.pre_burn_series@.len() && 0 <= j < inputs.pre_burn_series@.len()
                    && inputs.baseline_plateau_started_at.nanos
                    <= (#[trigger] inputs.pre_burn_series@[i]).at.nanos <= inputs.started_at.nanos
                    && inputs.baseline_plateau_started_at.nanos
                    <= (#[trigger] inputs.pre_burn_series@[j]).at.nanos <= inputs.started_at.nanos
                    ==> inputs.pre_burn_series@[j].quota_used@
                    - inputs.pre_burn_series@[i].quota_used@ <= movement_ppm
            &&& exists|i: int, j: int|
                0 <= i < inputs.pre_burn_series@.len() && 0 <= j < inputs.pre_burn_series@.len()
                    && (#[trigger] inputs.pre_burn_series@[j]).quota_used@ - (
                #[trigger] inputs.pre_burn_series@[i]).quota_used@ == movement_ppm
        },
{
    let points = inputs.pre_burn_series@;
    let keep = asserted_idle(inputs);
    let moved = movement(points, keep);
    law_movement_is_the_widest_difference(points, keep, thresholds.idle_tolerance() as nat);
    if moved > thresholds.idle_tolerance() {
        law_movement_is_the_widest_difference(points, keep, moved as nat);
        law_movement_is_the_widest_difference(points, keep, (moved - 1) as nat);
        let (i, j) = choose|i: int, j: int|
            0 <= i < points.len() && 0 <= j < points.len() && keep(#[trigger] points[i]) && keep(
                #[trigger] points[j],
            ) && points[j].quota_used@ - points[i].quota_used@ > moved - 1;
        assert(keep(points[i]) && keep(points[j]));
        assert(points[j].quota_used@ - points[i].quota_used@ == moved);
    }
}

/// Drift is found exactly where two readings taken later after the end of the work than
/// the settlement grace differ by more than is tolerated; and what is found is the
/// greatest difference there is. Work without an end lasts until it is evaluated.
pub proof fn law_settlement_drift_is_found(
    inputs: ContaminationInputs,
    thresholds: ContaminationThresholds,
    end: UtcTimestamp,
)
    requires
        thresholds.grace().nanos <= i64::MAX,
        inputs.ended_at == Some(end) || (inputs.ended_at is None && inputs.evaluated_at == end),
    ensures
        drift_finding(inputs, thresholds) is Some <==> exists|i: int, j: int|
            0 <= i < inputs.post_series@.len() && 0 <= j < inputs.post_series@.len() && (
            #[trigger] inputs.post_series@[i]).at.nanos - end.nanos > thresholds.grace().nanos && (
            #[trigger] inputs.post_series@[j]).at.nanos - end.nanos > thresholds.grace().nanos
                && inputs.post_series@[j].quota_used@ - inputs.post_series@[i].quota_used@
                > thresholds.drift_tolerance(),
        drift_finding(inputs, thresholds) matches Some(finding) ==> {
            &&& finding.signal == ContaminationSignal::ExtendedSettlementDrift
            &&& finding.magnitude matches MagnitudeView::ExtendedSettlementDrift { movement_ppm }
            &&& forall|i: int, j: int|
                0 <= i < inputs.post_series@.len() && 0 <= j < inputs.post_series@.len() && (
                #[trigger] inputs.post_series@[i]).at.nanos - end.nanos > thresholds.grace().nanos
                    && (#[trigger] inputs.post_series@[j]).at.nanos - end.nanos
                    > thresholds.grace().nanos ==> inputs.post_series@[j].quota_used@
                    - inputs.post_series@[i].quota_used@ <= movement_ppm
            &&& exists|i: int, j: int|
                0 <= i < inputs.post_series@.len() && 0 <= j < inputs.post_series@.len() && (
                #[trigger] inputs.post_series@[j]).quota_used@ - (
                #[trigger] inputs.post_series@[i]).quota_used@ == movement_ppm
        },
{
    let points = inputs.post_series@;
    let keep = past_grace(inputs, thresholds);
    let moved = movement(points, keep);
    assert forall|i: int| 0 <= i < points.len() implies keep(#[trigger] points[i]) == (
    points[i].at.nanos - end.nanos > thresholds.grace().nanos) by {}
    law_movement_is_the_widest_difference(points, keep, thresholds.drift_tolerance() as nat);
    if moved > thresholds.drift_tolerance() {
        law_movement_is_the_widest_difference(points, keep, moved as nat);
        law_movement_is_the_widest_difference(points, keep, (moved - 1) as nat);
        let (i, j) = choose|i: int, j: int|
            0 <= i < points.len() && 0 <= j < points.len() && keep(#[trigger] points[i]) && keep(
                #[trigger] points[j],
            ) && points[j].quota_used@ - points[i].quota_used@ > moved - 1;
        assert(keep(points[i]) && keep(points[j]));
        assert(points[j].quota_used@ - points[i].quota_used@ == moved);
    }
}

/// Flat credits are found exactly where the meter moved at least substantially, either
/// way, while the local credits stayed at or under their limit; and what is found is how
/// far the meter moved and what the credits totalled.
pub proof fn law_flat_credits_are_found(
    inputs: ContaminationInputs,
    thresholds: ContaminationThresholds,
)
    ensures
        flat_finding(inputs, thresholds) is Some <==> {
            &&& inputs.controlled_meter_end@ - inputs.controlled_meter_start@
                >= thresholds.substantial_movement() || inputs.controlled_meter_start@
                - inputs.controlled_meter_end@ >= thresholds.substantial_movement()
            &&& inputs.local_credits_delta.micros <= thresholds.flat_limit().micros
        },
        flat_finding(inputs, thresholds) matches Some(finding) ==> {
            &&& finding.signal == ContaminationSignal::FlatCreditsWithMeterMovement
            &&& finding.magnitude matches MagnitudeView::FlatCreditsWithMeterMovement {
                meter_movement_ppm,
                local_credits_micros,
            }
            &&& meter_movement_ppm >= 0
            &&& meter_movement_ppm == inputs.controlled_meter_end@ - inputs.controlled_meter_start@
                || meter_movement_ppm == inputs.controlled_meter_start@
                - inputs.controlled_meter_end@
            &&& local_credits_micros == inputs.local_credits_delta.micros
        },
{
}

/// Sessions are found exactly where a marker of the experiment's account was seen from the
/// start of the work to its end, both included; and what is found is the sessions of those
/// markers and of no others, by source and native identifier. Work without an end lasts
/// until it is evaluated.
pub proof fn law_overlapping_sessions_are_found(inputs: ContaminationInputs, end: UtcTimestamp)
    requires
        inputs.ended_at == Some(end) || (inputs.ended_at is None && inputs.evaluated_at == end),
    ensures
        overlap_finding(inputs) is Some <==> exists|i: int|
            0 <= i < inputs.markers@.len() && (#[trigger] inputs.markers@[i]).logical_account@
                == inputs.experiment_account@ && inputs.started_at.nanos
                <= inputs.markers@[i].observed_at.nanos <= end.nanos,
        overlap_finding(inputs) matches Some(finding) ==> {
            &&& finding.signal == ContaminationSignal::OverlappingSession
            &&& finding.magnitude matches MagnitudeView::OverlappingSession { sessions }
            &&& forall|label: Seq<char>| #[trigger]
                sessions.contains(label) <==> exists|i: int|
                    0 <= i < inputs.markers@.len() && (
                    #[trigger] inputs.markers@[i]).logical_account@ == inputs.experiment_account@
                        && inputs.started_at.nanos <= inputs.markers@[i].observed_at.nanos
                        <= end.nanos && label == inputs.markers@[i].session_source@ + "/"@
                        + inputs.markers@[i].session_native@
        },
{
    law_overlap_names_the_marked_sessions(inputs);
    assert forall|i: int| 0 <= i < inputs.markers@.len() implies overlaps(
        inputs,
        #[trigger] inputs.markers@[i],
    ) == (inputs.markers@[i].logical_account@ == inputs.experiment_account@
        && inputs.started_at.nanos <= inputs.markers@[i].observed_at.nanos <= end.nanos) by {}
    if overlap_finding(inputs) is Some {
        let sessions = overlap_finding(inputs)->0.magnitude->sessions;
        assert forall|label: Seq<char>| #[trigger]
            sessions.contains(label) <==> exists|i: int|
                0 <= i < inputs.markers@.len() && (#[trigger] inputs.markers@[i]).logical_account@
                    == inputs.experiment_account@ && inputs.started_at.nanos
                    <= inputs.markers@[i].observed_at.nanos <= end.nanos && label
                    == inputs.markers@[i].session_source@ + "/"@
                    + inputs.markers@[i].session_native@ by {
            if sessions.contains(label) {
                assert(overlap_finding(inputs)->0.magnitude->sessions.contains(label));
                let i = choose|i: int|
                    0 <= i < inputs.markers@.len() && overlaps(inputs, #[trigger] inputs.markers@[i])
                        && inputs.markers@[i].session() == label;
                assert(inputs.markers@[i].logical_account@ == inputs.experiment_account@);
            }
            if exists|i: int|
                0 <= i < inputs.markers@.len() && (#[trigger] inputs.markers@[i]).logical_account@
                    == inputs.experiment_account@ && inputs.started_at.nanos
                    <= inputs.markers@[i].observed_at.nanos <= end.nanos && label
                    == inputs.markers@[i].session_source@ + "/"@
                    + inputs.markers@[i].session_native@ {
                let i = choose|i: int|
                    0 <= i < inputs.markers@.len() && (
                    #[trigger] inputs.markers@[i]).logical_account@ == inputs.experiment_account@
                        && inputs.started_at.nanos <= inputs.markers@[i].observed_at.nanos
                        <= end.nanos && label == inputs.markers@[i].session_source@ + "/"@
                        + inputs.markers@[i].session_native@;
                assert(overlaps(inputs, inputs.markers@[i]));
                assert(inputs.markers@[i].session() == label);
                assert(overlap_finding(inputs)->0.magnitude->sessions.contains(label));
            }
        }
    }
}

/// The verdict holds what the four checks find, each as it was found, in the order of the
/// checks, and nothing else.
pub proof fn law_the_verdict_holds_every_finding(
    inputs: ContaminationInputs,
    thresholds: ContaminationThresholds,
    finding: FindingView,
)
    ensures
        contamination(inputs, thresholds).contains(finding) <==> (idle_finding(inputs, thresholds)
            == Some(finding) || drift_finding(inputs, thresholds) == Some(finding) || flat_finding(
            inputs,
            thresholds,
        ) == Some(finding) || overlap_finding(inputs) == Some(finding)),
        idle_finding(inputs, thresholds) is Some ==> contamination(inputs, thresholds)[0]
            == idle_finding(inputs, thresholds)->0,
        overlap_finding(inputs) is Some ==> contamination(inputs, thresholds).last()
            == overlap_finding(inputs)->0,
{
    let idle = with_finding(Seq::empty(), idle_finding(inputs, thresholds));
    let drift = with_finding(idle, drift_finding(inputs, thresholds));
    let flat = with_finding(drift, flat_finding(inputs, thresholds));
    let all = contamination(inputs, thresholds);
    if idle_finding(inputs, thresholds) is Some {
        assert(all[0] == idle_finding(inputs, thresholds)->0);
    }
    if drift_finding(inputs, thresholds) is Some {
        assert(all[idle.len() as int] == drift_finding(inputs, thresholds)->0);
    }
    if flat_finding(inputs, thresholds) is Some {
        assert(all[drift.len() as int] == flat_finding(inputs, thresholds)->0);
    }
    if overlap_finding(inputs) is Some {
        assert(all[flat.len() as int] == overlap_finding(inputs)->0);
    }
}

/// The conservative thresholds in figures: one percent of movement is tolerated before the
/// work and after its settlement, an hour is left for settlement, and credits are flat
/// where none were spent while the meter moved by two percent.
pub proof fn law_conservative_thresholds_in_figures()
    ensures
        DEFAULT_PRE_BURN_MAX_MOVEMENT_PPM == 10_000,
        DEFAULT_POST_SETTLEMENT_MAX_MOVEMENT_PPM == 10_000,
        DEFAULT_POST_SETTLEMENT_GRACE_NANOS == 60 * 60 * 1_000_000_000,
        DEFAULT_FLAT_CREDITS_MIN_METER_MOVEMENT_PPM == 20_000,
        DEFAULT_FLAT_CREDITS_MAX_LOCAL_MICROS == 0,
{
}

} // verus!
