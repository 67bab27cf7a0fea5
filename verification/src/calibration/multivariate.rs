//! What a joint fit over token classes asks of its observations.
//!
//! A coefficient for each class means something only where the usage behind the
//! observations varied enough to tell the classes apart. Before any regression the
//! number of observations decides; what the regression then did is described in text
//! that travels with its result.

use crate::calibration::fitter::FitRejection;
use crate::domain::{KnownTokenVector, TokenKind};
use crate::ids::EvidenceId;
use crate::records::{excluded_views, ExcludedSample, ExcludedView};
use crate::sets::{join_texts, joined, texts};
use crate::text::{decimal, decimal_text};
use vstd::prelude::*;
use vstd::string::*;

verus! {

/// How many usable observations a joint fit asks for by default: with four classes,
/// four degrees of freedom are left.
pub const DEFAULT_MINIMUM_OBSERVATIONS: usize = 8;

/// What keeps an observation out of a joint fit before its design is looked at.
#[derive(Debug, Clone, PartialEq, Eq)]
pub enum MultivariateObservationError {
    /// The movement is no finite number, but what is shown for it.
    NonFiniteQuotaDelta { evidence: String, got: String },
}

impl MultivariateObservationError {
    /// The sentence shown for this error.
    pub fn message(&self) -> (message: String)
        ensures
            message@ == match *self {
                MultivariateObservationError::NonFiniteQuotaDelta { evidence, got } =>
                    "multivariate fit observation '"@ + evidence@
                    + "' has a non-finite quota delta: "@ + got@,
            },
    {
        match self {
            MultivariateObservationError::NonFiniteQuotaDelta { evidence, got } => {
                let mut message: String = "multivariate fit observation '".to_owned();
                message.append(evidence.as_str());
                message.append("' has a non-finite quota delta: ");
                message.append(got.as_str());
                message
            },
        }
    }
}

/// The usage behind one observation of a joint fit.
#[derive(Debug, Clone, PartialEq, Eq)]
pub struct TokenObservation {
    pub evidence_id: EvidenceId,
    pub tokens: KnownTokenVector,
}

/// The design of a joint fit: the classes fitted, the positions of the observations
/// used, and those left out.
#[derive(Debug, PartialEq, Eq)]
pub struct MultivariateDesign {
    pub kinds: Vec<TokenKind>,
    pub usable: Vec<usize>,
    pub excluded_samples: Vec<ExcludedSample>,
}

/// The distinct classes of a list, in the order of their first mention.
pub open spec fn distinct(kinds: Seq<TokenKind>) -> Seq<TokenKind>
    decreases kinds.len(),
{
    if kinds.len() == 0 {
        kinds
    } else {
        let before = distinct(kinds.drop_last());
        if before.contains(kinds.last()) {
            before
        } else {
            before.push(kinds.last())
        }
    }
}

/// Whether an observation carries tokens of some fitted class.
pub open spec fn carries_signal(kinds: Seq<TokenKind>, tokens: KnownTokenVector) -> bool {
    exists|i: int| 0 <= i < kinds.len() && tokens.count(#[trigger] kinds[i]) > 0
}

/// The positions of the first `n` observations that carry a signal.
pub open spec fn with_signal(
    observations: Seq<TokenObservation>,
    kinds: Seq<TokenKind>,
    n: int,
) -> Seq<usize>
    decreases n,
{
    if n <= 0 {
        Seq::empty()
    } else {
        let before = with_signal(observations, kinds, n - 1);
        if carries_signal(kinds, observations[n - 1].tokens) {
            before.push((n - 1) as usize)
        } else {
            before
        }
    }
}

/// The first `n` observations without a signal, as far as they have a name.
pub open spec fn without_signal(
    observations: Seq<TokenObservation>,
    kinds: Seq<TokenKind>,
    n: int,
) -> Seq<ExcludedView>
    decreases n,
{
    if n <= 0 {
        Seq::empty()
    } else {
        let before = without_signal(observations, kinds, n - 1);
        let last = observations[n - 1];
        if carries_signal(kinds, last.tokens) || last.evidence_id@.len() == 0 {
            before
        } else {
            before.push(
                ExcludedView {
                    sample_ref: last.evidence_id@,
                    reason: "excluded: no usage in fitted token kinds"@,
                },
            )
        }
    }
}

fn holds_kind(kinds: &Vec<TokenKind>, kind: TokenKind) -> (held: bool)
    ensures
        held == kinds@.contains(kind),
{
    let mut i: usize = 0;
    while i < kinds.len()
        invariant
            i <= kinds@.len(),
            forall|k: int| 0 <= k < i ==> kinds@[k] != kind,
        decreases kinds@.len() - i,
    {
        if kinds[i] == kind {
            assert(kinds@[i as int] == kind);
            return true;
        }
        i = i + 1;
    }
    false
}

fn distinct_kinds(kinds: &[TokenKind]) -> (selected: Vec<TokenKind>)
    ensures
        selected@ == distinct(kinds@),
{
    let mut selected: Vec<TokenKind> = Vec::new();
    let mut i: usize = 0;
    assert(kinds@.take(0) =~= Seq::empty());
    while i < kinds.len()
        invariant
            i <= kinds@.len(),
            selected@ == distinct(kinds@.take(i as int)),
        decreases kinds@.len() - i,
    {
        assert(kinds@.take(i + 1).drop_last() =~= kinds@.take(i as int));
        if !holds_kind(&selected, kinds[i]) {
            selected.push(kinds[i]);
        }
        i = i + 1;
    }
    assert(kinds@.take(kinds@.len() as int) =~= kinds@);
    selected
}

/// Whether tokens hold some of a list of classes.
pub fn has_signal(kinds: &Vec<TokenKind>, tokens: KnownTokenVector) -> (signal: bool)
    ensures
        signal == carries_signal(kinds@, tokens),
{
    let mut i: usize = 0;
    while i < kinds.len()
        invariant
            i <= kinds@.len(),
            forall|k: int| 0 <= k < i ==> tokens.count(#[trigger] kinds@[k]) == 0,
        decreases kinds@.len() - i,
    {
        if tokens.get(kinds[i]) > 0 {
            assert(tokens.count(kinds@[i as int]) > 0);
            return true;
        }
        i = i + 1;
    }
    false
}

/// Selects what a joint fit runs on. An observation without tokens of any fitted class
/// constrains no coefficient and is left out. At least `minimum` observations must
/// remain, and more than there are classes.
pub fn select_design(
    observations: &Vec<TokenObservation>,
    kinds: &[TokenKind],
    minimum: usize,
) -> (design: Result<MultivariateDesign, FitRejection>)
    ensures
        ({
            let selected = distinct(kinds@);
            let used = with_signal(observations@, selected, observations@.len() as int);
            match design {
                Ok(d) => {
                    &&& used.len() >= minimum
                    &&& used.len() > selected.len() > 0
                    &&& d.kinds@ == selected
                    &&& d.usable@ == used
                    &&& excluded_views(d.excluded_samples@) == without_signal(
                        observations@,
                        selected,
                        observations@.len() as int,
                    )
                },
                Err(rejection) => if used.len() < minimum {
                    rejection is InsufficientObservations && rejection->found == used.len()
                        && rejection->required == minimum
                } else {
                    (selected.len() == 0 || used.len() <= selected.len())
                        && rejection is Underidentified && rejection->usable == used.len()
                },
            }
        }),
{
    let selected: Vec<TokenKind> = distinct_kinds(kinds);
    let mut usable: Vec<usize> = Vec::new();
    let mut excluded: Vec<ExcludedSample> = Vec::new();
    let mut i: usize = 0;
    assert(excluded_views(excluded@) =~= Seq::empty());
    proof {
        reveal_strlit("excluded: no usage in fitted token kinds");
    }
    while i < observations.len()
        invariant
            i <= observations@.len(),
            selected@ == distinct(kinds@),
            usable@ == with_signal(observations@, selected@, i as int),
            excluded_views(excluded@) == without_signal(observations@, selected@, i as int),
            "excluded: no usage in fitted token kinds"@.len() > 0,
        decreases observations@.len() - i,
    {
        let observation: &TokenObservation = &observations[i];
        if has_signal(&selected, observation.tokens) {
            usable.push(i);
        } else {
            let ghost before = excluded@;
            match ExcludedSample::new(
                observation.evidence_id.as_str(),
                "excluded: no usage in fitted token kinds",
            ) {
                Some(sample) => {
                    excluded.push(sample);
                    assert(excluded_views(excluded@) =~= excluded_views(before).push(sample@));
                },
                None => {},
            }
        }
        i = i + 1;
    }
    if usable.len() < minimum {
        return Err(
            FitRejection::InsufficientObservations { found: usable.len(), required: minimum },
        );
    }
    if selected.len() == 0 || usable.len() <= selected.len() {
        return Err(FitRejection::Underidentified { usable: usable.len() });
    }
    Ok(MultivariateDesign { kinds: selected, usable, excluded_samples: excluded })
}

/// The names of some classes.
pub open spec fn kind_names(kinds: Seq<TokenKind>) -> Seq<Seq<char>> {
    kinds.map_values(|k: TokenKind| k.name())
}

/// The names of some classes, with commas between.
pub fn joined_kinds(kinds: &[TokenKind]) -> (text: String)
    ensures
        text@ == joined(kind_names(kinds@), ","@),
{
    let mut names: Vec<String> = Vec::new();
    let mut i: usize = 0;
    assert(texts(names@) =~= kind_names(kinds@).take(0));
    while i < kinds.len()
        invariant
            i <= kinds@.len(),
            texts(names@) == kind_names(kinds@).take(i as int),
        decreases kinds@.len() - i,
    {
        let ghost before = names@;
        names.push(kinds[i].label().to_owned());
        assert(texts(names@) =~= kind_names(kinds@).take(i + 1)) by {
            assert(texts(names@) =~= texts(before).push(names@.last()@));
        }
        i = i + 1;
    }
    assert(kind_names(kinds@).take(kinds@.len() as int) =~= kind_names(kinds@));
    join_texts(&names, ",")
}

/// What a joint fit did, in text.
#[derive(Debug, Clone, PartialEq, Eq)]
pub struct MultivariateDescription {
    pub regularization: String,
    pub non_negativity: String,
    pub statistical_method: String,
    pub statistical_parameters: String,
}

/// The figures of a joint fit, as they are shown.
#[derive(Debug, Clone, PartialEq, Eq)]
pub struct MultivariateFigures {
    pub residual_variance_ppm2: String,
    pub ridge_penalty: String,
    /// Whether the penalty was applied, that is, is greater than zero.
    pub regularized: bool,
    pub enforce_non_negativity: bool,
}

/// Describes what a joint fit did.
pub fn describe_fit(design: &MultivariateDesign, figures: &MultivariateFigures) -> (description:
    MultivariateDescription)
    requires
        design.kinds@.len() <= design.usable@.len(),
    ensures
        description.regularization@ == if figures.regularized {
            "ridge penalty "@ + figures.ridge_penalty@ + " added to gram diagonal"@
        } else {
            "none"@
        },
        description.non_negativity@ == if figures.enforce_non_negativity {
            "enforced: all "@ + decimal(design.kinds@.len())
                + " coefficients constrained to >= 0 ppm/token; unconstrained solution satisfied every bound"@
        } else {
            "not enforced by configuration; all "@ + decimal(design.kinds@.len())
                + " fitted coefficients are positive"@
        },
        description.statistical_method@ == if figures.regularized {
            "multivariate-ridge-through-origin"@
        } else {
            "multivariate-ols-through-origin"@
        },
        description.statistical_parameters@ == "kinds=["@ + joined(
            kind_names(design.kinds@),
            ","@,
        ) + "];n="@ + decimal(design.usable@.len()) + ";p="@ + decimal(design.kinds@.len())
            + ";dof="@ + decimal((design.usable@.len() - design.kinds@.len()) as nat)
            + ";residual_variance_ppm2="@ + figures.residual_variance_ppm2@ + ";ridge_penalty="@
            + figures.ridge_penalty@ + ";intervals=normal-approx-1.96"@,
{
    let p: usize = design.kinds.len();
    let n: usize = design.usable.len();
    let regularization: String = if figures.regularized {
        let mut text: String = "ridge penalty ".to_owned();
        text.append(figures.ridge_penalty.as_str());
        text.append(" added to gram diagonal");
        text
    } else {
        "none".to_owned()
    };
    let non_negativity: String = if figures.enforce_non_negativity {
        let mut text: String = "enforced: all ".to_owned();
        text.append(decimal_text(p as u128).as_str());
        text.append(
            " coefficients constrained to >= 0 ppm/token; unconstrained solution satisfied every bound",
        );
        text
    } else {
        let mut text: String = "not enforced by configuration; all ".to_owned();
        text.append(decimal_text(p as u128).as_str());
        text.append(" fitted coefficients are positive");
        text
    };
    let statistical_method: String = if figures.regularized {
        "multivariate-ridge-through-origin".to_owned()
    } else {
        "multivariate-ols-through-origin".to_owned()
    };
    let mut parameters: String = "kinds=[".to_owned();
    parameters.append(joined_kinds(design.kinds.as_slice()).as_str());
    parameters.append("];n=");
    parameters.append(decimal_text(n as u128).as_str());
    parameters.append(";p=");
    parameters.append(decimal_text(p as u128).as_str());
    parameters.append(";dof=");
    parameters.append(decimal_text((n - p) as u128).as_str());
    parameters.append(";residual_variance_ppm2=");
    parameters.append(figures.residual_variance_ppm2.as_str());
    parameters.append(";ridge_penalty=");
    parameters.append(figures.ridge_penalty.as_str());
    parameters.append(";intervals=normal-approx-1.96");
    MultivariateDescription {
        regularization,
        non_negativity,
        statistical_method,
        statistical_parameters: parameters,
    }
}

/// The distinct classes hold each mentioned class, and each once.
pub proof fn law_distinct_kinds(kinds: Seq<TokenKind>)
    ensures
        distinct(kinds).no_duplicates(),
        forall|k: TokenKind| #[trigger] distinct(kinds).contains(k) <==> kinds.contains(k),
    decreases kinds.len(),
{
    if kinds.len() > 0 {
        let shorter = kinds.drop_last();
        let before = distinct(shorter);
        let after = distinct(kinds);
        law_distinct_kinds(shorter);
        assert(kinds[kinds.len() - 1] == kinds.last());
        assert forall|k: TokenKind| #[trigger] after.contains(k) <==> kinds.contains(k) by {
            if kinds.contains(k) && k != kinds.last() {
                let i = choose|i: int| 0 <= i < kinds.len() && kinds[i] == k;
                assert(shorter[i] == k);
                assert(shorter.contains(k));
            }
            if shorter.contains(k) {
                let i = choose|i: int| 0 <= i < shorter.len() && shorter[i] == k;
                assert(kinds[i] == k);
            }
            if before.contains(k) {
                let i = choose|i: int| 0 <= i < before.len() && before[i] == k;
                assert(after[i] == k);
            }
            if !before.contains(kinds.last()) {
                assert(after[before.len() as int] == kinds.last());
            }
            if after.contains(k) && k != kinds.last() {
                let i = choose|i: int| 0 <= i < after.len() && after[i] == k;
                assert(before[i] == k);
            }
        }
    }
}

/// An observation enters a fit exactly where it holds tokens of a fitted class; one that
/// does not is left out under its own name, where it has one. Neither changes what was
/// decided of those before it.
pub proof fn law_each_observation_enters_or_is_named(
    observations: Seq<TokenObservation>,
    kinds: Seq<TokenKind>,
    n: int,
)
    requires
        0 <= n < observations.len() <= usize::MAX,
    ensures
        with_signal(observations, kinds, 0).len() == 0,
        without_signal(observations, kinds, 0).len() == 0,
        ({
            let tokens = observations[n].tokens;
            let entered = with_signal(observations, kinds, n + 1);
            let named = without_signal(observations, kinds, n + 1);
            if (kinds.contains(TokenKind::Input) && tokens.input > 0) || (kinds.contains(
                TokenKind::Output,
            ) && tokens.output > 0) || (kinds.contains(TokenKind::CacheRead) && tokens.cache_read
                > 0) || (kinds.contains(TokenKind::CacheWrite) && tokens.cache_write > 0) {
                &&& entered.len() == with_signal(observations, kinds, n).len() + 1
                &&& entered.drop_last() == with_signal(observations, kinds, n)
                &&& entered.last() == n
                &&& named == without_signal(observations, kinds, n)
            } else {
                &&& entered == with_signal(observations, kinds, n)
                &&& observations[n].evidence_id@.len() == 0 ==> named == without_signal(
                    observations,
                    kinds,
                    n,
                )
                &&& observations[n].evidence_id@.len() > 0 ==> {
                    &&& named.len() == without_signal(observations, kinds, n).len() + 1
                    &&& named.drop_last() == without_signal(observations, kinds, n)
                    &&& named.last().sample_ref == observations[n].evidence_id@
                    &&& named.last().reason == "excluded: no usage in fitted token kinds"@
                }
            }
        }),
{
    let tokens = observations[n].tokens;
    let before = with_signal(observations, kinds, n);
    let left = without_signal(observations, kinds, n);
    let signal = (kinds.contains(TokenKind::Input) && tokens.input > 0) || (kinds.contains(
        TokenKind::Output,
    ) && tokens.output > 0) || (kinds.contains(TokenKind::CacheRead) && tokens.cache_read > 0)
        || (kinds.contains(TokenKind::CacheWrite) && tokens.cache_write > 0);
    if carries_signal(kinds, tokens) {
        let i = choose|i: int| 0 <= i < kinds.len() && tokens.count(#[trigger] kinds[i]) > 0;
        assert(kinds.contains(kinds[i]));
        assert(signal);
        assert(before.push(n as usize).drop_last() =~= before);
    } else {
        assert forall|k: TokenKind| #[trigger] kinds.contains(k) implies tokens.count(k) == 0 by {
            let i = choose|i: int| 0 <= i < kinds.len() && kinds[i] == k;
            assert(tokens.count(kinds[i]) == 0);
        }
        assert(!signal);
        let named = without_signal(observations, kinds, n + 1);
        if observations[n].evidence_id@.len() > 0 {
            assert(named.drop_last() =~= left);
        }
    }
}

} // verus!
