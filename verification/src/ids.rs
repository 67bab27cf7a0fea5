//! Identifiers. Each is text under a type of its own, so that an experiment is
//! never taken for a candidate.

use crate::text::same_text;
use vstd::prelude::*;

verus! {

/// One piece of evidence: a meter sample or a usage event.
#[derive(Debug, PartialEq, Eq, PartialOrd, Ord, Hash)]
pub struct EvidenceId {
    pub text: String,
}

impl View for EvidenceId {
    type V = Seq<char>;

    open spec fn view(&self) -> Seq<char> {
        self.text@
    }
}

impl Clone for EvidenceId {
    fn clone(&self) -> (copy: Self)
        ensures
            copy == *self,
    {
        EvidenceId { text: self.text.clone() }
    }
}

impl EvidenceId {
    pub fn new(text: &str) -> (id: Self)
        ensures
            id@ == text@,
    {
        EvidenceId { text: text.to_owned() }
    }

    pub fn as_str(&self) -> (text: &str)
        ensures
            text@ == self@,
    {
        self.text.as_str()
    }

    /// Whether two identifiers read the same.
    pub fn same(&self, other: &Self) -> (same: bool)
        ensures
            same == (self@ == other@),
    {
        same_text(self.text.as_str(), other.text.as_str())
    }
}

/// A calibration experiment.
#[derive(Debug, PartialEq, Eq, PartialOrd, Ord, Hash)]
pub struct ExperimentId {
    pub text: String,
}

impl View for ExperimentId {
    type V = Seq<char>;

    open spec fn view(&self) -> Seq<char> {
        self.text@
    }
}

impl Clone for ExperimentId {
    fn clone(&self) -> (copy: Self)
        ensures
            copy == *self,
    {
        ExperimentId { text: self.text.clone() }
    }
}

impl ExperimentId {
    pub fn new(text: &str) -> (id: Self)
        ensures
            id@ == text@,
    {
        ExperimentId { text: text.to_owned() }
    }

    pub fn as_str(&self) -> (text: &str)
        ensures
            text@ == self@,
    {
        self.text.as_str()
    }

    /// Whether two identifiers read the same.
    pub fn same(&self, other: &Self) -> (same: bool)
        ensures
            same == (self@ == other@),
    {
        same_text(self.text.as_str(), other.text.as_str())
    }
}

/// A fitted calibration candidate.
#[derive(Debug, PartialEq, Eq, PartialOrd, Ord, Hash)]
pub struct CandidateId {
    pub text: String,
}

impl View for CandidateId {
    type V = Seq<char>;

    open spec fn view(&self) -> Seq<char> {
        self.text@
    }
}

impl Clone for CandidateId {
    fn clone(&self) -> (copy: Self)
        ensures
            copy == *self,
    {
        CandidateId { text: self.text.clone() }
    }
}

impl CandidateId {
    pub fn new(text: &str) -> (id: Self)
        ensures
            id@ == text@,
    {
        CandidateId { text: text.to_owned() }
    }

    pub fn as_str(&self) -> (text: &str)
        ensures
            text@ == self@,
    {
        self.text.as_str()
    }

    /// Whether two identifiers read the same.
    pub fn same(&self, other: &Self) -> (same: bool)
        ensures
            same == (self@ == other@),
    {
        same_text(self.text.as_str(), other.text.as_str())
    }
}

/// A recorded window calibration.
#[derive(Debug, PartialEq, Eq, PartialOrd, Ord, Hash)]
pub struct WindowCalibrationId {
    pub text: String,
}

impl View for WindowCalibrationId {
    type V = Seq<char>;

    open spec fn view(&self) -> Seq<char> {
        self.text@
    }
}

impl Clone for WindowCalibrationId {
    fn clone(&self) -> (copy: Self)
        ensures
            copy == *self,
    {
        WindowCalibrationId { text: self.text.clone() }
    }
}

impl WindowCalibrationId {
    pub fn new(text: &str) -> (id: Self)
        ensures
            id@ == text@,
    {
        WindowCalibrationId { text: text.to_owned() }
    }

    pub fn as_str(&self) -> (text: &str)
        ensures
            text@ == self@,
    {
        self.text.as_str()
    }

    /// Whether two identifiers read the same.
    pub fn same(&self, other: &Self) -> (same: bool)
        ensures
            same == (self@ == other@),
    {
        same_text(self.text.as_str(), other.text.as_str())
    }
}

/// A cost model.
#[derive(Debug, PartialEq, Eq, PartialOrd, Ord, Hash)]
pub struct CostModelId {
    pub text: String,
}

impl View for CostModelId {
    type V = Seq<char>;

    open spec fn view(&self) -> Seq<char> {
        self.text@
    }
}

impl Clone for CostModelId {
    fn clone(&self) -> (copy: Self)
        ensures
            copy == *self,
    {
        CostModelId { text: self.text.clone() }
    }
}

impl CostModelId {
    pub fn new(text: &str) -> (id: Self)
        ensures
            id@ == text@,
    {
        CostModelId { text: text.to_owned() }
    }

    pub fn as_str(&self) -> (text: &str)
        ensures
            text@ == self@,
    {
        self.text.as_str()
    }

    /// Whether two identifiers read the same.
    pub fn same(&self, other: &Self) -> (same: bool)
        ensures
            same == (self@ == other@),
    {
        same_text(self.text.as_str(), other.text.as_str())
    }
}

/// A provider of quota windows.
#[derive(Debug, PartialEq, Eq, PartialOrd, Ord, Hash)]
pub struct ProviderKey {
    pub text: String,
}

impl View for ProviderKey {
    type V = Seq<char>;

    open spec fn view(&self) -> Seq<char> {
        self.text@
    }
}

impl Clone for ProviderKey {
    fn clone(&self) -> (copy: Self)
        ensures
            copy == *self,
    {
        ProviderKey { text: self.text.clone() }
    }
}

impl ProviderKey {
    pub fn new(text: &str) -> (id: Self)
        ensures
            id@ == text@,
    {
        ProviderKey { text: text.to_owned() }
    }

    pub fn as_str(&self) -> (text: &str)
        ensures
            text@ == self@,
    {
        self.text.as_str()
    }

    /// Whether two identifiers read the same.
    pub fn same(&self, other: &Self) -> (same: bool)
        ensures
            same == (self@ == other@),
    {
        same_text(self.text.as_str(), other.text.as_str())
    }
}

/// A subscription tier.
#[derive(Debug, PartialEq, Eq, PartialOrd, Ord, Hash)]
pub struct PlanTier {
    pub text: String,
}

impl View for PlanTier {
    type V = Seq<char>;

    open spec fn view(&self) -> Seq<char> {
        self.text@
    }
}

impl Clone for PlanTier {
    fn clone(&self) -> (copy: Self)
        ensures
            copy == *self,
    {
        PlanTier { text: self.text.clone() }
    }
}

impl PlanTier {
    pub fn new(text: &str) -> (id: Self)
        ensures
            id@ == text@,
    {
        PlanTier { text: text.to_owned() }
    }

    pub fn as_str(&self) -> (text: &str)
        ensures
            text@ == self@,
    {
        self.text.as_str()
    }

    /// Whether two identifiers read the same.
    pub fn same(&self, other: &Self) -> (same: bool)
        ensures
            same == (self@ == other@),
    {
        same_text(self.text.as_str(), other.text.as_str())
    }
}

/// A kind of quota window.
#[derive(Debug, PartialEq, Eq, PartialOrd, Ord, Hash)]
pub struct WindowSemanticKey {
    pub text: String,
}

impl View for WindowSemanticKey {
    type V = Seq<char>;

    open spec fn view(&self) -> Seq<char> {
        self.text@
    }
}

impl Clone for WindowSemanticKey {
    fn clone(&self) -> (copy: Self)
        ensures
            copy == *self,
    {
        WindowSemanticKey { text: self.text.clone() }
    }
}

impl WindowSemanticKey {
    pub fn new(text: &str) -> (id: Self)
        ensures
            id@ == text@,
    {
        WindowSemanticKey { text: text.to_owned() }
    }

    pub fn as_str(&self) -> (text: &str)
        ensures
            text@ == self@,
    {
        self.text.as_str()
    }

    /// Whether two identifiers read the same.
    pub fn same(&self, other: &Self) -> (same: bool)
        ensures
            same == (self@ == other@),
    {
        same_text(self.text.as_str(), other.text.as_str())
    }
}

/// What a provider's meter measures.
#[derive(Debug, PartialEq, Eq, PartialOrd, Ord, Hash)]
pub struct MeterSemanticsId {
    pub text: String,
}

impl View for MeterSemanticsId {
    type V = Seq<char>;

    open spec fn view(&self) -> Seq<char> {
        self.text@
    }
}

impl Clone for MeterSemanticsId {
    fn clone(&self) -> (copy: Self)
        ensures
            copy == *self,
    {
        MeterSemanticsId { text: self.text.clone() }
    }
}

impl MeterSemanticsId {
    pub fn new(text: &str) -> (id: Self)
        ensures
            id@ == text@,
    {
        MeterSemanticsId { text: text.to_owned() }
    }

    pub fn as_str(&self) -> (text: &str)
        ensures
            text@ == self@,
    {
        self.text.as_str()
    }

    /// Whether two identifiers read the same.
    pub fn same(&self, other: &Self) -> (same: bool)
        ensures
            same == (self@ == other@),
    {
        same_text(self.text.as_str(), other.text.as_str())
    }
}

/// How a provider bills.
#[derive(Debug, PartialEq, Eq, PartialOrd, Ord, Hash)]
pub struct BillingSemanticsId {
    pub text: String,
}

impl View for BillingSemanticsId {
    type V = Seq<char>;

    open spec fn view(&self) -> Seq<char> {
        self.text@
    }
}

impl Clone for BillingSemanticsId {
    fn clone(&self) -> (copy: Self)
        ensures
            copy == *self,
    {
        BillingSemanticsId { text: self.text.clone() }
    }
}

impl BillingSemanticsId {
    pub fn new(text: &str) -> (id: Self)
        ensures
            id@ == text@,
    {
        BillingSemanticsId { text: text.to_owned() }
    }

    pub fn as_str(&self) -> (text: &str)
        ensures
            text@ == self@,
    {
        self.text.as_str()
    }

    /// Whether two identifiers read the same.
    pub fn same(&self, other: &Self) -> (same: bool)
        ensures
            same == (self@ == other@),
    {
        same_text(self.text.as_str(), other.text.as_str())
    }
}

} // verus!
