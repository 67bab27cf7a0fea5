//! Converting qualified credits into calibrated movement of a quota window.
//!
//! A conversion needs a recorded calibration that the current context agrees with in
//! every dimension. The result keeps both ends of the interval, so that the
//! uncertainty of the calibration is never hidden behind a single number.

use crate::calibration::health::CalibrationHealth;
use crate::domain::{Credits, Interval, PercentagePoints, PERCENTAGE_POINTS_LIMIT};
use crate::evidence::{
    Derivation, EvidenceQuality, Provenance, WindowEquivalentDerivation, WindowEquivalentValue,
};
use crate::ids::{
    BillingSemanticsId, CostModelId, MeterSemanticsId, PlanTier, ProviderKey, WindowSemanticKey,
};
use crate::records::WindowCalibration;
use crate::sets::{
    ascending, inserted, lemma_inserted, lemma_ordered_set, ordered_set, TextSet,
};
use crate::text::same_text;
use vstd::prelude::*;
use vstd::string::*;

verus! {

/// What usage is labelled with where no account is known for it.
pub const UNKNOWN_ACCOUNT_LABEL: &'static str = "unknown";

/// The current facts against which a calibration is checked. A missing account is a
/// refusal, not permission to combine accounts.
#[derive(Debug, Clone, PartialEq, Eq)]
pub struct WindowConversionContext {
    pub account: Option<String>,
    pub provider: ProviderKey,
    pub plan_tier: PlanTier,
    pub window_semantic_key: WindowSemanticKey,
    pub meter_semantics_id: MeterSemanticsId,
    pub billing_semantics_id: BillingSemanticsId,
    pub cost_model_id: Option<CostModelId>,
}

impl WindowConversionContext {
    pub fn new(
        account: Option<String>,
        provider: ProviderKey,
        plan_tier: PlanTier,
        window_semantic_key: WindowSemanticKey,
        meter_semantics_id: MeterSemanticsId,
        billing_semantics_id: BillingSemanticsId,
        cost_model_id: Option<CostModelId>,
    ) -> (context: Self)
        ensures
            context.account == account,
            context.provider == provider,
            context.plan_tier == plan_tier,
            context.window_semantic_key == window_semantic_key,
            context.meter_semantics_id == meter_semantics_id,
            context.billing_semantics_id == billing_semantics_id,
            context.cost_model_id == cost_model_id,
    {
        WindowConversionContext {
            account,
            provider,
            plan_tier,
            window_semantic_key,
            meter_semantics_id,
            billing_semantics_id,
            cost_model_id,
        }
    }
}

/// Whether usage is attributed to an account.
pub open spec fn account_known(account: Option<String>) -> bool {
    account is Some && account->0@.len() > 0 && account->0@ != UNKNOWN_ACCOUNT_LABEL@
}

/// Whether the cost model in force is the one the calibration was fitted under.
pub open spec fn cost_model_agrees(current: Option<CostModelId>, fitted: CostModelId) -> bool {
    current is Some && current->0@ == fitted@
}

/// A list with one more fact, where it is missing.
pub open spec fn with_fact(facts: Seq<Seq<char>>, holds: bool, fact: Seq<char>) -> Seq<Seq<char>> {
    if holds {
        facts
    } else {
        facts.push(fact)
    }
}

/// Every dimension in which a calibration does not apply, in the order of the checks.
pub open spec fn mismatches(
    calibration: WindowCalibration,
    context: WindowConversionContext,
    health: CalibrationHealth,
) -> Seq<Seq<char>> {
    let account = with_fact(
        Seq::empty(),
        account_known(context.account),
        "account attribution"@,
    );
    let provider = with_fact(
        account,
        calibration.provider@ == context.provider@,
        "provider matches calibration"@,
    );
    let tier = with_fact(
        provider,
        calibration.plan_tier@ == context.plan_tier@,
        "plan tier matches calibration"@,
    );
    let window = with_fact(
        tier,
        calibration.window_semantic_key@ == context.window_semantic_key@,
        "window semantic key matches calibration"@,
    );
    let meter = with_fact(
        window,
        calibration.meter_semantics_id@ == context.meter_semantics_id@,
        "meter semantics match calibration"@,
    );
    let billing = with_fact(
        meter,
        calibration.billing_semantics_id@ == context.billing_semantics_id@,
        "billing semantics match calibration"@,
    );
    let cost = with_fact(
        billing,
        cost_model_agrees(context.cost_model_id, calibration.cost_model_id),
        "cost model matches calibration"@,
    );
    with_fact(cost, health is Current, "calibration health: "@ + health.name())
}

/// The lower end of the credits that a value and its quality admit.
pub open spec fn least_admitted(value: Credits, quality: EvidenceQuality<Credits>) -> int {
    match quality.interval() {
        Some(interval) => if interval.lower.micros < value.micros {
            interval.lower.micros as int
        } else {
            value.micros as int
        },
        None => value.micros as int,
    }
}

/// The upper end of the credits that a value and its quality admit.
pub open spec fn most_admitted(value: Credits, quality: EvidenceQuality<Credits>) -> int {
    match quality.interval() {
        Some(interval) => if interval.upper.micros > value.micros {
            interval.upper.micros as int
        } else {
            value.micros as int
        },
        None => value.micros as int,
    }
}

/// Division rounded up.
pub open spec fn ceiling(numerator: int, denominator: int) -> int {
    (numerator + denominator - 1) / denominator
}

/// What a conversion comes to: an interval of movement, or the facts that are missing.
pub enum ConversionView {
    Moved { lower: int, upper: int },
    Refused { missing: Seq<Seq<char>> },
}

/// The conversion of credits under a calibration.
///
/// Movement is credits over credits per point. The lower end divides by the greatest
/// coefficient and rounds down, the upper end by the least and rounds up, so that
/// every value the evidence admits stays inside.
pub open spec fn conversion(
    credits: Derivation,
    calibration: WindowCalibration,
    context: WindowConversionContext,
    health: CalibrationHealth,
) -> ConversionView {
    let facts = ordered_set(mismatches(calibration, context, health));
    let least_coefficient = calibration.uncertainty.low().micros as int;
    let most_coefficient = calibration.uncertainty.high().micros as int;
    if facts.len() > 0 {
        ConversionView::Refused { missing: facts }
    } else {
        match credits {
            Derivation::Unavailable { missing, .. } => ConversionView::Refused {
                missing: inserted(missing@, "qualified credits"@),
            },
            Derivation::Available(qualified) => {
                let lower = least_admitted(qualified.value, qualified.quality);
                let upper = most_admitted(qualified.value, qualified.quality);
                if lower < 0 {
                    ConversionView::Refused {
                        missing: seq!["non-negative qualified credits interval"@],
                    }
                } else if least_coefficient <= 0 {
                    ConversionView::Refused { missing: seq!["positive calibration coefficient"@] }
                } else if ceiling(upper, least_coefficient) > PERCENTAGE_POINTS_LIMIT {
                    ConversionView::Refused {
                        missing: seq!["percentage-point interval within representable range"@],
                    }
                } else {
                    ConversionView::Moved {
                        lower: lower / most_coefficient,
                        upper: ceiling(upper, least_coefficient),
                    }
                }
            },
        }
    }
}

/// Where a conversion comes from: the credits' own sources, the calibration, and its
/// provider.
pub open spec fn conversion_sources(
    credits: Derivation,
    calibration: WindowCalibration,
) -> Seq<Seq<char>> {
    inserted(
        inserted(credits.source_names(), "window-calibration:"@ + calibration.id@),
        "provider:"@ + calibration.provider@,
    )
}

/// Whether movement keeps the quality of the credits it was derived from: it is an
/// estimate by the credits' methods and the calibration, mixed where they were mixed,
/// with the interval as its uncertainty.
pub open spec fn quality_lifted(
    credits: EvidenceQuality<Credits>,
    calibration: WindowCalibration,
    interval: Interval<PercentagePoints>,
    movement: EvidenceQuality<PercentagePoints>,
) -> bool {
    &&& !(movement is Measured)
    &&& movement is Mixed <==> credits is Mixed
    &&& movement.method_names() == inserted(
        credits.method_names(),
        "window-calibration:"@ + calibration.id@,
    )
    &&& movement.interval() == Some(interval)
}

fn labelled(label: &str, id: &str) -> (text: String)
    ensures
        text@ == label@ + id@,
{
    let mut text: String = label.to_owned();
    text.append(id);
    text
}

fn note(facts: &mut TextSet, Ghost(list): Ghost<Seq<Seq<char>>>, holds: bool, fact: &str)
    requires
        old(facts)@ == ordered_set(list),
    ensures
        final(facts)@ == ordered_set(with_fact(list, holds, fact@)),
{
    if !holds {
        facts.insert(fact);
        assert(list.push(fact@).drop_last() =~= list);
    }
}

fn applicability_mismatches(
    calibration: &WindowCalibration,
    context: &WindowConversionContext,
    health: CalibrationHealth,
) -> (facts: TextSet)
    ensures
        facts@ == ordered_set(mismatches(*calibration, *context, health)),
{
    let mut facts: TextSet = TextSet::new();
    let known: bool = match &context.account {
        Some(account) => !account.as_str().is_empty() && !same_text(
            account.as_str(),
            UNKNOWN_ACCOUNT_LABEL,
        ),
        None => false,
    };
    let ghost none = Seq::<Seq<char>>::empty();
    note(&mut facts, Ghost(none), known, "account attribution");
    let ghost account = with_fact(none, known, "account attribution"@);
    let same_provider: bool = calibration.provider.same(&context.provider);
    note(&mut facts, Ghost(account), same_provider, "provider matches calibration");
    let ghost provider = with_fact(account, same_provider, "provider matches calibration"@);
    let same_tier: bool = calibration.plan_tier.same(&context.plan_tier);
    note(&mut facts, Ghost(provider), same_tier, "plan tier matches calibration");
    let ghost tier = with_fact(provider, same_tier, "plan tier matches calibration"@);
    let same_window: bool = calibration.window_semantic_key.same(&context.window_semantic_key);
    note(&mut facts, Ghost(tier), same_window, "window semantic key matches calibration");
    let ghost window = with_fact(tier, same_window, "window semantic key matches calibration"@);
    let same_meter: bool = calibration.meter_semantics_id.same(&context.meter_semantics_id);
    note(&mut facts, Ghost(window), same_meter, "meter semantics match calibration");
    let ghost meter = with_fact(window, same_meter, "meter semantics match calibration"@);
    let same_billing: bool = calibration.billing_semantics_id.same(&context.billing_semantics_id);
    note(&mut facts, Ghost(meter), same_billing, "billing semantics match calibration");
    let ghost billing = with_fact(meter, same_billing, "billing semantics match calibration"@);
    let same_cost: bool = match &context.cost_model_id {
        Some(id) => id.same(&calibration.cost_model_id),
        None => false,
    };
    note(&mut facts, Ghost(billing), same_cost, "cost model matches calibration");
    let ghost cost = with_fact(billing, same_cost, "cost model matches calibration"@);
    let current: bool = health == CalibrationHealth::Current;
    let state: String = labelled("calibration health: ", health.label());
    note(&mut facts, Ghost(cost), current, state.as_str());
    facts
}

fn credit_bounds(value: Credits, quality: &EvidenceQuality<Credits>) -> (bounds: Option<(i128, i128)>)
    ensures
        match bounds {
            Some((lower, upper)) => {
                &&& lower == least_admitted(value, *quality)
                &&& upper == most_admitted(value, *quality)
                &&& 0 <= lower <= upper <= i64::MAX
            },
            None => least_admitted(value, *quality) < 0,
        },
{
    let micros: i128 = value.micros() as i128;
    let interval: &Option<Interval<Credits>> = match quality {
        EvidenceQuality::Measured => &None,
        EvidenceQuality::Estimated { uncertainty, .. } => uncertainty,
        EvidenceQuality::Mixed { uncertainty, .. } => uncertainty,
    };
    let mut lower: i128 = micros;
    let mut upper: i128 = micros;
    match interval {
        Some(range) => {
            if (range.lower.micros() as i128) < lower {
                lower = range.lower.micros() as i128;
            }
            if range.upper.micros() as i128 > upper {
                upper = range.upper.micros() as i128;
            }
        },
        None => {},
    }
    if lower >= 0 {
        Some((lower, upper))
    } else {
        None
    }
}

fn divide_floor(numerator: i128, denominator: i128) -> (quotient: i128)
    requires
        0 <= numerator <= i64::MAX,
        0 < denominator <= i64::MAX,
    ensures
        quotient == numerator as int / denominator as int,
        0 <= quotient <= numerator,
{
    assert(0 <= numerator as int / denominator as int <= numerator) by (nonlinear_arith)
        requires
            0 <= numerator,
            0 < denominator,
    ;
    numerator / denominator
}

fn divide_ceil(numerator: i128, denominator: i128) -> (quotient: i128)
    requires
        0 <= numerator <= i64::MAX,
        0 < denominator <= i64::MAX,
    ensures
        quotient == ceiling(numerator as int, denominator as int),
        0 <= quotient,
{
    assert(0 <= (numerator + denominator - 1) / (denominator as int)) by (nonlinear_arith)
        requires
            0 <= numerator,
            0 < denominator,
    ;
    if numerator == 0 {
        assert((denominator - 1) / (denominator as int) == 0) by (nonlinear_arith)
            requires
                0 < denominator,
        ;
        0
    } else {
        (numerator + denominator - 1) / denominator
    }
}

fn conversion_provenance(credits: &Derivation, calibration: &WindowCalibration) -> (provenance:
    Provenance)
    ensures
        provenance.sources@ == conversion_sources(*credits, *calibration),
{
    let mut sources: TextSet = credits.provenance().sources().clone();
    let source: String = labelled("window-calibration:", calibration.id.as_str());
    sources.insert(source.as_str());
    let provider: String = labelled("provider:", calibration.provider.as_str());
    sources.insert(provider.as_str());
    Provenance::new(sources)
}

fn lift_quality(
    credits: &EvidenceQuality<Credits>,
    interval: Interval<PercentagePoints>,
    calibration: &WindowCalibration,
) -> (movement: EvidenceQuality<PercentagePoints>)
    ensures
        quality_lifted(*credits, *calibration, interval, movement),
{
    let source: String = labelled("window-calibration:", calibration.id.as_str());
    match credits {
        EvidenceQuality::Measured => {
            let mut methods: TextSet = TextSet::new();
            methods.insert(source.as_str());
            EvidenceQuality::Estimated { methods, uncertainty: Some(interval) }
        },
        EvidenceQuality::Estimated { methods, .. } => {
            let mut methods: TextSet = methods.clone();
            methods.insert(source.as_str());
            EvidenceQuality::Estimated { methods, uncertainty: Some(interval) }
        },
        EvidenceQuality::Mixed { methods, .. } => {
            let mut methods: TextSet = methods.clone();
            methods.insert(source.as_str());
            EvidenceQuality::Mixed { methods, uncertainty: Some(interval) }
        },
    }
}

fn refused_for(fact: &str, provenance: Provenance) -> (refusal: WindowEquivalentDerivation)
    ensures
        refusal is Unavailable,
        refusal->missing@ == seq![fact@],
        refusal.source_names() == provenance.sources@,
{
    let mut missing: TextSet = TextSet::new();
    missing.insert(fact);
    assert(missing@ =~= seq![fact@]);
    WindowEquivalentDerivation::Unavailable { missing, provenance }
}

proof fn lemma_inverse_bounds_are_ordered(lower: int, upper: int, least: int, most: int)
    requires
        0 <= lower <= upper,
        0 < least <= most,
    ensures
        lower / most <= ceiling(upper, least),
        0 <= lower / most,
{
    assert(lower / most <= upper / least) by (nonlinear_arith)
        requires
            0 <= lower <= upper,
            0 < least <= most,
    ;
    assert(upper / least <= (upper + least - 1) / least) by (nonlinear_arith)
        requires
            0 <= upper,
            0 < least,
    ;
    assert(0 <= lower / most) by (nonlinear_arith)
        requires
            0 <= lower,
            0 < most,
    ;
}

/// Converts qualified credits into window movement.
///
/// Every dimension in which the calibration does not apply is named in the refusal,
/// and so is every health state other than current.
pub fn convert(
    credits: &Derivation,
    calibration: &WindowCalibration,
    context: &WindowConversionContext,
    health: CalibrationHealth,
) -> (movement: WindowEquivalentDerivation)
    ensures
        movement.source_names() == conversion_sources(*credits, *calibration),
        match movement {
            WindowEquivalentDerivation::Available(value) => {
                &&& conversion(*credits, *calibration, *context, health)
                    == (ConversionView::Moved {
                    lower: value.interval.lower@,
                    upper: value.interval.upper@,
                })
                &&& value.calibration_id@ == calibration.id@
                &&& *credits is Available
                &&& value.coverage == credits->Available_0.coverage
                &&& quality_lifted(
                    credits->Available_0.quality,
                    *calibration,
                    value.interval,
                    value.quality,
                )
            },
            WindowEquivalentDerivation::Unavailable { missing, .. } => conversion(
                *credits,
                *calibration,
                *context,
                health,
            ) == (ConversionView::Refused { missing: missing@ }),
        },
{
    let provenance: Provenance = conversion_provenance(credits, calibration);
    let facts: TextSet = applicability_mismatches(calibration, context, health);
    if !facts.is_empty() {
        return WindowEquivalentDerivation::Unavailable { missing: facts, provenance };
    }
    let qualified: &crate::evidence::Qualified = match credits {
        Derivation::Unavailable { missing, .. } => {
            let mut missing: TextSet = missing.clone();
            missing.insert("qualified credits");
            return WindowEquivalentDerivation::Unavailable { missing, provenance };
        },
        Derivation::Available(qualified) => qualified,
    };
    let bounds: (i128, i128) = match credit_bounds(qualified.value, &qualified.quality) {
        Some(bounds) => bounds,
        None => {
            return refused_for("non-negative qualified credits interval", provenance);
        },
    };
    let least: i128 = calibration.uncertainty.lower().micros_per_point() as i128;
    let most: i128 = calibration.uncertainty.upper().micros_per_point() as i128;
    if least <= 0 || most <= 0 {
        return refused_for("positive calibration coefficient", provenance);
    }
    let lower_raw: i128 = divide_floor(bounds.0, most);
    let upper_raw: i128 = divide_ceil(bounds.1, least);
    proof {
        lemma_inverse_bounds_are_ordered(
            bounds.0 as int,
            bounds.1 as int,
            least as int,
            most as int,
        );
    }
    if upper_raw > PERCENTAGE_POINTS_LIMIT as i128 {
        return refused_for("percentage-point interval within representable range", provenance);
    }
    let ends: (Option<PercentagePoints>, Option<PercentagePoints>) = (
        PercentagePoints::new(lower_raw as i32),
        PercentagePoints::new(upper_raw as i32),
    );
    let lower: PercentagePoints = ends.0.unwrap();
    let upper: PercentagePoints = ends.1.unwrap();
    let interval: Interval<PercentagePoints> = Interval::<PercentagePoints>::new(
        lower,
        upper,
    ).unwrap();
    WindowEquivalentDerivation::Available(
        WindowEquivalentValue {
            interval,
            calibration_id: calibration.id.clone(),
            coverage: qualified.coverage,
            quality: lift_quality(&qualified.quality, interval, calibration),
            provenance,
        },
    )
}

/// A conversion goes through only where the calibration agrees with the context in
/// every dimension and is current; and then its interval is in order and holds every
/// quotient of admitted credits by an admitted coefficient.
pub proof fn law_conversion_bounds_every_admitted_quotient(
    credits: Derivation,
    calibration: WindowCalibration,
    context: WindowConversionContext,
    health: CalibrationHealth,
    micros: int,
    coefficient: int,
)
    requires
        conversion(credits, calibration, context, health) is Moved,
        credits is Available,
        least_admitted(credits->Available_0.value, credits->Available_0.quality) <= micros
            <= most_admitted(credits->Available_0.value, credits->Available_0.quality),
        calibration.uncertainty.low().micros <= coefficient
            <= calibration.uncertainty.high().micros,
    ensures
        mismatches(calibration, context, health).len() == 0,
        health is Current,
        ({
            let moved = conversion(credits, calibration, context, health);
            &&& 0 <= moved->lower <= moved->upper <= PERCENTAGE_POINTS_LIMIT
            &&& moved->lower * coefficient <= micros <= moved->upper * coefficient
        }),
{
    let facts = mismatches(calibration, context, health);
    lemma_ordered_set(facts);
    if facts.len() > 0 {
        assert(facts.contains(facts[0]));
        assert(ordered_set(facts).contains(facts[0]));
    }
    let value = credits->Available_0.value;
    let quality = credits->Available_0.quality;
    let lower = least_admitted(value, quality);
    let upper = most_admitted(value, quality);
    let least = calibration.uncertainty.low().micros as int;
    let most = calibration.uncertainty.high().micros as int;
    lemma_inverse_bounds_are_ordered(lower, upper, least, most);
    vstd::arithmetic::div_mod::lemma_fundamental_div_mod(lower, most);
    vstd::arithmetic::div_mod::lemma_fundamental_div_mod(upper + least - 1, least);
    assert((lower / most) * coefficient <= micros) by (nonlinear_arith)
        requires
            0 < least <= coefficient <= most,
            0 <= lower <= micros,
            lower == most * (lower / most) + lower % most,
            0 <= lower % most,
            0 <= lower / most,
    ;
    assert(micros <= ceiling(upper, least) * coefficient) by (nonlinear_arith)
        requires
            0 < least <= coefficient,
            0 <= micros <= upper,
            upper + least - 1 == least * ((upper + least - 1) / least) + (upper + least - 1)
                % least,
            (upper + least - 1) % least < least,
            ceiling(upper, least) == (upper + least - 1) / least,
            0 <= ceiling(upper, least),
    ;
}

/// More credits never move a window less, under one calibration.
pub proof fn law_conversion_is_monotone(
    fewer: Derivation,
    more: Derivation,
    calibration: WindowCalibration,
    context: WindowConversionContext,
    health: CalibrationHealth,
)
    requires
        fewer is Available,
        more is Available,
        least_admitted(fewer->Available_0.value, fewer->Available_0.quality) <= least_admitted(
            more->Available_0.value,
            more->Available_0.quality,
        ),
        most_admitted(fewer->Available_0.value, fewer->Available_0.quality) <= most_admitted(
            more->Available_0.value,
            more->Available_0.quality,
        ),
        calibration.uncertainty.low().micros <= calibration.uncertainty.high().micros,
        conversion(fewer, calibration, context, health) is Moved,
        conversion(more, calibration, context, health) is Moved,
    ensures
        conversion(fewer, calibration, context, health)->lower <= conversion(
            more,
            calibration,
            context,
            health,
        )->lower,
        conversion(fewer, calibration, context, health)->upper <= conversion(
            more,
            calibration,
            context,
            health,
        )->upper,
{
    let least = calibration.uncertainty.low().micros as int;
    let most = calibration.uncertainty.high().micros as int;
    let low = least_admitted(fewer->Available_0.value, fewer->Available_0.quality);
    let low_more = least_admitted(more->Available_0.value, more->Available_0.quality);
    let high = most_admitted(fewer->Available_0.value, fewer->Available_0.quality);
    let high_more = most_admitted(more->Available_0.value, more->Available_0.quality);
    vstd::arithmetic::div_mod::lemma_div_is_ordered(low, low_more, most);
    vstd::arithmetic::div_mod::lemma_div_is_ordered(
        high + least - 1,
        high_more + least - 1,
        least,
    );
}

/// Whether a conversion is refused for some fact, among others perhaps.
pub open spec fn refused_naming(conversion: ConversionView, fact: Seq<char>) -> bool {
    conversion matches ConversionView::Refused { missing } && missing.contains(fact)
}

/// Every dimension is checked on its own: each in which calibration and context differ is
/// named in the refusal, whatever the others are.
pub proof fn law_every_mismatch_is_named(
    credits: Derivation,
    calibration: WindowCalibration,
    context: WindowConversionContext,
    health: CalibrationHealth,
)
    ensures
        ({
            let converted = conversion(credits, calibration, context, health);
            &&& !account_known(context.account) ==> refused_naming(
                converted,
                "account attribution"@,
            )
            &&& calibration.provider@ != context.provider@ ==> refused_naming(
                converted,
                "provider matches calibration"@,
            )
            &&& calibration.plan_tier@ != context.plan_tier@ ==> refused_naming(
                converted,
                "plan tier matches calibration"@,
            )
            &&& calibration.window_semantic_key@ != context.window_semantic_key@
                ==> refused_naming(converted, "window semantic key matches calibration"@)
            &&& calibration.meter_semantics_id@ != context.meter_semantics_id@ ==> refused_naming(
                converted,
                "meter semantics match calibration"@,
            )
            &&& calibration.billing_semantics_id@ != context.billing_semantics_id@
                ==> refused_naming(converted, "billing semantics match calibration"@)
            &&& !cost_model_agrees(context.cost_model_id, calibration.cost_model_id)
                ==> refused_naming(converted, "cost model matches calibration"@)
            &&& health !is Current ==> refused_naming(
                converted,
                "calibration health: "@ + health.name(),
            )
        }),
{
    let facts = mismatches(calibration, context, health);
    lemma_ordered_set(facts);
    assert forall|i: int| 0 <= i < facts.len() implies ordered_set(facts).contains(
        #[trigger] facts[i],
    ) by {
        assert(facts.contains(facts[i]));
    }
    let none = Seq::<Seq<char>>::empty();
    let account = with_fact(none, account_known(context.account), "account attribution"@);
    let provider = with_fact(
        account,
        calibration.provider@ == context.provider@,
        "provider matches calibration"@,
    );
    let tier = with_fact(
        provider,
        calibration.plan_tier@ == context.plan_tier@,
        "plan tier matches calibration"@,
    );
    let window = with_fact(
        tier,
        calibration.window_semantic_key@ == context.window_semantic_key@,
        "window semantic key matches calibration"@,
    );
    let meter = with_fact(
        window,
        calibration.meter_semantics_id@ == context.meter_semantics_id@,
        "meter semantics match calibration"@,
    );
    let billing = with_fact(
        meter,
        calibration.billing_semantics_id@ == context.billing_semantics_id@,
        "billing semantics match calibration"@,
    );
    let cost = with_fact(
        billing,
        cost_model_agrees(context.cost_model_id, calibration.cost_model_id),
        "cost model matches calibration"@,
    );
    assert(!account_known(context.account) ==> facts[0] == "account attribution"@);
    assert(calibration.provider@ != context.provider@ ==> facts[account.len() as int]
        == "provider matches calibration"@);
    assert(calibration.plan_tier@ != context.plan_tier@ ==> facts[provider.len() as int]
        == "plan tier matches calibration"@);
    assert(calibration.window_semantic_key@ != context.window_semantic_key@
        ==> facts[tier.len() as int] == "window semantic key matches calibration"@);
    assert(calibration.meter_semantics_id@ != context.meter_semantics_id@
        ==> facts[window.len() as int] == "meter semantics match calibration"@);
    assert(calibration.billing_semantics_id@ != context.billing_semantics_id@
        ==> facts[meter.len() as int] == "billing semantics match calibration"@);
    assert(!cost_model_agrees(context.cost_model_id, calibration.cost_model_id)
        ==> facts[billing.len() as int] == "cost model matches calibration"@);
    assert(health !is Current ==> facts[cost.len() as int] == "calibration health: "@
        + health.name());
}

/// Credits that were not derived never become a movement, and no refusal is silent: where
/// calibration and context agree it names the credits and all that they lack.
pub proof fn law_refusals_name_what_is_missing(
    credits: Derivation,
    calibration: WindowCalibration,
    context: WindowConversionContext,
    health: CalibrationHealth,
)
    requires
        credits matches Derivation::Unavailable { missing, .. } ==> ascending(missing@),
    ensures
        credits is Unavailable ==> conversion(credits, calibration, context, health) is Refused,
        conversion(credits, calibration, context, health) matches ConversionView::Refused {
            missing,
        } ==> missing.len() > 0,
        credits is Unavailable && mismatches(calibration, context, health).len() == 0
            ==> refused_naming(
            conversion(credits, calibration, context, health),
            "qualified credits"@,
        ),
        forall|fact: Seq<char>|
            credits is Unavailable && mismatches(calibration, context, health).len() == 0
                && credits->missing@.contains(fact) ==> #[trigger] refused_naming(
                conversion(credits, calibration, context, health),
                fact,
            ),
{
    match credits {
        Derivation::Unavailable { missing, .. } => {
            lemma_inserted(missing@, "qualified credits"@);
            assert(inserted(missing@, "qualified credits"@).contains("qualified credits"@));
        },
        Derivation::Available(_) => {},
    }
}

/// The movement holds every quotient that the evidence admits: of the credits themselves,
/// and of every amount between the ends of the interval that their quality carries, by
/// every coefficient between the ends of the calibration's.
pub proof fn law_the_whole_credit_interval_is_converted(
    credits: Derivation,
    calibration: WindowCalibration,
    context: WindowConversionContext,
    health: CalibrationHealth,
    micros: int,
    coefficient: int,
)
    requires
        conversion(credits, calibration, context, health) is Moved,
        credits is Available,
        micros == credits->Available_0.value.micros || match credits->Available_0.quality {
            EvidenceQuality::Estimated { uncertainty: Some(interval), .. } => interval.lower.micros
                <= micros <= interval.upper.micros,
            EvidenceQuality::Mixed { uncertainty: Some(interval), .. } => interval.lower.micros
                <= micros <= interval.upper.micros,
            _ => false,
        },
        calibration.uncertainty.low().micros <= coefficient
            <= calibration.uncertainty.high().micros,
    ensures
        ({
            let moved = conversion(credits, calibration, context, health);
            moved->lower * coefficient <= micros <= moved->upper * coefficient
        }),
{
    law_conversion_bounds_every_admitted_quotient(
        credits,
        calibration,
        context,
        health,
        micros,
        coefficient,
    );
}

/// The movement is no wider than the evidence asks: some admitted amount, over the
/// greatest coefficient, falls short of one point above the lower end, and some admitted
/// amount, over the least coefficient, exceeds one point below the upper end.
pub proof fn law_conversion_is_no_wider_than_its_evidence(
    credits: Derivation,
    calibration: WindowCalibration,
    context: WindowConversionContext,
    health: CalibrationHealth,
)
    requires
        conversion(credits, calibration, context, health) is Moved,
        credits is Available,
        calibration.uncertainty.low().micros <= calibration.uncertainty.high().micros,
    ensures
        ({
            let moved = conversion(credits, calibration, context, health);
            let value = credits->Available_0.value;
            let beyond_lower = (moved->lower + 1) * calibration.uncertainty.high().micros;
            let below_upper = (moved->upper - 1) * calibration.uncertainty.low().micros;
            match credits->Available_0.quality {
                EvidenceQuality::Estimated { uncertainty: Some(interval), .. } => {
                    &&& value.micros < beyond_lower || interval.lower.micros < beyond_lower
                    &&& value.micros > below_upper || interval.upper.micros > below_upper
                },
                EvidenceQuality::Mixed { uncertainty: Some(interval), .. } => {
                    &&& value.micros < beyond_lower || interval.lower.micros < beyond_lower
                    &&& value.micros > below_upper || interval.upper.micros > below_upper
                },
                _ => below_upper < value.micros < beyond_lower,
            }
        }),
{
    let value = credits->Available_0.value;
    let quality = credits->Available_0.quality;
    let lower = least_admitted(value, quality);
    let upper = most_admitted(value, quality);
    let least = calibration.uncertainty.low().micros as int;
    let most = calibration.uncertainty.high().micros as int;
    vstd::arithmetic::div_mod::lemma_fundamental_div_mod(lower, most);
    vstd::arithmetic::div_mod::lemma_fundamental_div_mod(upper + least - 1, least);
    let down = lower / most;
    let up = (upper + least - 1) / least;
    assert(lower < (down + 1) * most) by (nonlinear_arith)
        requires
            lower == most * down + lower % most,
            lower % most < most,
    ;
    assert(upper > (up - 1) * least) by (nonlinear_arith)
        requires
            upper + least - 1 == least * up + (upper + least - 1) % least,
            0 <= (upper + least - 1) % least,
            least > 0,
    ;
}

/// Credits become movement exactly where the usage has an account, calibration and context
/// agree on the provider, the plan tier, the window, the meter, the billing and the cost
/// model, the calibration is current, the credits were derived, neither they nor their
/// interval reach below zero, the coefficients are positive, and no movement exceeds a
/// million points.
pub proof fn law_when_credits_become_movement(
    credits: Derivation,
    calibration: WindowCalibration,
    context: WindowConversionContext,
    health: CalibrationHealth,
)
    requires
        calibration.uncertainty.low().micros <= calibration.uncertainty.high().micros,
    ensures
        conversion(credits, calibration, context, health) is Moved <==> {
            &&& context.account matches Some(account) && account@.len() > 0 && account@
                != "unknown"@
            &&& calibration.provider@ == context.provider@
            &&& calibration.plan_tier@ == context.plan_tier@
            &&& calibration.window_semantic_key@ == context.window_semantic_key@
            &&& calibration.meter_semantics_id@ == context.meter_semantics_id@
            &&& calibration.billing_semantics_id@ == context.billing_semantics_id@
            &&& context.cost_model_id matches Some(model) && model@ == calibration.cost_model_id@
            &&& health == CalibrationHealth::Current
            &&& calibration.uncertainty.low().micros > 0
            &&& credits is Available
            &&& 0 <= credits->Available_0.value.micros <= 1_000_000
                * calibration.uncertainty.low().micros
            &&& match credits->Available_0.quality {
                EvidenceQuality::Estimated { uncertainty: Some(interval), .. } => 0
                    <= interval.lower.micros && interval.upper.micros <= 1_000_000
                    * calibration.uncertainty.low().micros,
                EvidenceQuality::Mixed { uncertainty: Some(interval), .. } => 0
                    <= interval.lower.micros && interval.upper.micros <= 1_000_000
                    * calibration.uncertainty.low().micros,
                _ => true,
            }
        },
{
    let facts = mismatches(calibration, context, health);
    lemma_ordered_set(facts);
    if facts.len() > 0 {
        assert(facts.contains(facts[0]));
        assert(ordered_set(facts).contains(facts[0]));
    }
    assert(facts.len() == 0 ==> ordered_set(facts).len() == 0);
    let least = calibration.uncertainty.low().micros as int;
    if credits is Available && least > 0 {
        let upper = most_admitted(credits->Available_0.value, credits->Available_0.quality);
        vstd::arithmetic::div_mod::lemma_fundamental_div_mod(upper + least - 1, least);
        let up = (upper + least - 1) / least;
        assert(up <= 1_000_000 <==> upper <= 1_000_000 * least) by (nonlinear_arith)
            requires
                upper + least - 1 == least * up + (upper + least - 1) % least,
                0 <= (upper + least - 1) % least < least,
                least > 0,
        ;
    }
}

/// A movement comes from exactly what its credits come from, the calibration and its
/// provider; and by exactly the methods of its credits and the calibration.
pub proof fn law_movement_names_where_it_comes_from(
    credits: Derivation,
    calibration: WindowCalibration,
    quality: EvidenceQuality<Credits>,
    interval: Interval<PercentagePoints>,
    movement: EvidenceQuality<PercentagePoints>,
)
    requires
        match credits {
            Derivation::Available(qualified) => ascending(qualified.provenance.sources@),
            Derivation::Unavailable { provenance, .. } => ascending(provenance.sources@),
        },
        ascending(quality.method_names()),
        quality_lifted(quality, calibration, interval, movement),
    ensures
        forall|source: Seq<char>| #[trigger]
            conversion_sources(credits, calibration).contains(source) <==> {
                ||| source == "window-calibration:"@ + calibration.id@
                ||| source == "provider:"@ + calibration.provider@
                ||| match credits {
                    Derivation::Available(qualified) => qualified.provenance.sources@.contains(
                        source,
                    ),
                    Derivation::Unavailable { provenance, .. } => provenance.sources@.contains(
                        source,
                    ),
                }
            },
        match (quality, movement) {
            (
                EvidenceQuality::Measured,
                EvidenceQuality::Estimated { methods, uncertainty },
            ) => uncertainty == Some(interval) && methods@
                =~= seq!["window-calibration:"@ + calibration.id@],
            (
                EvidenceQuality::Estimated { methods: before, .. },
                EvidenceQuality::Estimated { methods, uncertainty },
            ) => uncertainty == Some(interval) && forall|method: Seq<char>| #[trigger]
                methods@.contains(method) <==> (before@.contains(method) || method
                    == "window-calibration:"@ + calibration.id@),
            (
                EvidenceQuality::Mixed { methods: before, .. },
                EvidenceQuality::Mixed { methods, uncertainty },
            ) => uncertainty == Some(interval) && forall|method: Seq<char>| #[trigger]
                methods@.contains(method) <==> (before@.contains(method) || method
                    == "window-calibration:"@ + calibration.id@),
            _ => false,
        },
{
    let before = credits.source_names();
    lemma_inserted(before, "window-calibration:"@ + calibration.id@);
    lemma_inserted(
        inserted(before, "window-calibration:"@ + calibration.id@),
        "provider:"@ + calibration.provider@,
    );
    lemma_inserted(quality.method_names(), "window-calibration:"@ + calibration.id@);
}

} // verus!
