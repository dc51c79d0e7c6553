use gateway_plugin::billing::{
    prepare, BillingDescriptor, BillingPlan, CalculatedCost, DeclaredModel, DeclaredPrices,
    ModelPrice, PriceBand, PriceBands, ProviderPricingCatalog, ServiceTier, TokenPrices, Usage,
};
use gateway_plugin::fault::{AdminErrorKind, AdminReason};
use gateway_plugin::manifest::{Capability, CapabilityDeclaration, Manifest, Stage};

fn declared(scale: u128) -> Option<DeclaredPrices> {
    Some(DeclaredPrices {
        input: Some(2 * scale),
        output: Some(10 * scale),
        cache_read: Some(scale),
        cache_write: Some(3 * scale),
    })
}

fn model(name: &str) -> DeclaredModel {
    DeclaredModel {
        model: name.to_owned(),
        is_model: true,
        standard: declared(1),
        fast: declared(2),
        flex: None,
        long_standard: declared(4),
        long_fast: None,
        long_flex: declared(3),
    }
}

fn manifest(stages: Vec<Stage>) -> Manifest {
    Manifest {
        contributes: vec![CapabilityDeclaration {
            capability: Capability::Billing,
            stages,
            input_formats: vec![],
            output_formats: vec![],
        }],
    }
}

fn catalog() -> ProviderPricingCatalog {
    prepare(
        Some(BillingDescriptor { prices: vec![model("m")] }),
        &manifest(vec![Stage::Execution]),
    )
    .ok()
    .flatten()
    .expect("a price list")
}

fn refusal(descriptor: Option<BillingDescriptor>, manifest: &Manifest) -> Option<AdminReason> {
    match prepare(descriptor, manifest) {
        Ok(_) => None,
        Err(error) => {
            assert_eq!(error.kind, AdminErrorKind::Invalid);
            Some(error.reason)
        }
    }
}

fn usage() -> Usage {
    Usage {
        input_tokens: Some(100),
        output_tokens: Some(20),
        cached_tokens: Some(40),
        cache_write_tokens: Some(10),
        reasoning_tokens: None,
        image_input_tokens: None,
        image_output_tokens: Some(0),
        total_tokens: None,
    }
}

#[test]
fn tokens_are_charged_each_at_its_own_price() {
    let catalog = catalog();
    let plan = BillingPlan::new(Some(&catalog), Some("m"), None);
    assert!(plan.enabled());
    assert_eq!(
        plan.calculate(&usage(), PriceBand::Standard),
        Some(CalculatedCost {
            input: 100,
            output: 200,
            cache_read: 40,
            cache_write: 30,
            standard: 370,
            total: 370,
            input_rate: 2_000_000,
            output_rate: 10_000_000,
            cache_read_rate: 1_000_000,
            cache_write_rate: 3_000_000,
            service_tier: ServiceTier::Default,
            multiplier_percent: 100,
            long_context: false,
            multiplier_bps: 10_000,
        })
    );
}

#[test]
fn a_band_is_measured_by_its_base() {
    let catalog = catalog();
    let plan = BillingPlan::new(Some(&catalog), Some("m"), None);
    let fast = plan.calculate(&usage(), PriceBand::Fast).expect("a cost");
    assert_eq!((fast.total, fast.standard, fast.multiplier_percent), (740, 370, 200));
    assert_eq!(fast.service_tier.name(), "priority");
    let flex = plan.calculate(&usage(), PriceBand::LongFlex).expect("a cost");
    assert_eq!((flex.total, flex.standard, flex.multiplier_percent), (1110, 1480, 75));
    assert!(flex.long_context);
    assert_eq!(flex.service_tier.name(), "flex");
    assert!(plan.calculate(&usage(), PriceBand::Flex).is_none());
    assert!(plan.calculate(&usage(), PriceBand::LongFast).is_none());
}

#[test]
fn nothing_is_guessed() {
    let catalog = catalog();
    let plan = BillingPlan::new(Some(&catalog), Some("m"), None);
    for broken in [
        Usage { input_tokens: None, ..usage() },
        Usage { output_tokens: None, ..usage() },
        Usage { cached_tokens: None, ..usage() },
        Usage { cache_write_tokens: None, ..usage() },
        Usage { input_tokens: Some(49), ..usage() },
        Usage { image_input_tokens: Some(1), ..usage() },
        Usage { image_output_tokens: Some(1), ..usage() },
    ] {
        assert!(plan.calculate(&broken, PriceBand::Standard).is_none());
    }
    let exact = Usage { input_tokens: Some(50), ..usage() };
    assert_eq!(plan.calculate(&exact, PriceBand::Standard).expect("a cost").input, 0);
    let free = Usage {
        input_tokens: Some(0),
        output_tokens: Some(0),
        cached_tokens: Some(0),
        cache_write_tokens: Some(0),
        ..usage()
    };
    let cost = plan.calculate(&free, PriceBand::Fast).expect("a cost");
    assert_eq!((cost.total, cost.multiplier_percent), (0, 100));
}

#[test]
fn an_operator_sets_prices_over_the_declared_ones() {
    let catalog = catalog();
    let flex = TokenPrices { input: 7, output: 0, cache_read: 0, cache_write: 0 };
    let custom = ProviderPricingCatalog {
        models: vec![(
            "m".to_owned(),
            ModelPrice {
                multiplier_bps: 5_000,
                bands: PriceBands { flex: Some(flex), ..PriceBands::none() },
            },
        )],
    };
    let plan = BillingPlan::new(Some(&catalog), Some("m"), Some(&custom));
    let cost = plan.calculate(&usage(), PriceBand::Flex).expect("a cost");
    assert_eq!((cost.total, cost.standard, cost.multiplier_bps), (350, 370, 5_000));
    assert_eq!(cost.multiplier_percent, 95);
    let alone = BillingPlan::new(None, Some("m"), Some(&custom));
    assert!(!alone.enabled());
    assert!(alone.calculate(&usage(), PriceBand::Flex).is_none());
    assert!(BillingPlan::new(Some(&catalog), None, Some(&custom)).price.is_none());
    assert!(BillingPlan::new(Some(&catalog), Some("other"), None).price.is_none());
}

#[test]
fn amounts_that_cannot_be_written_down_are_not_charged() {
    let huge = TokenPrices { input: u128::MAX, output: 0, cache_read: 0, cache_write: 0 };
    let plan = BillingPlan {
        enabled: true,
        price: Some(ModelPrice {
            multiplier_bps: 10_000,
            bands: PriceBands { standard: Some(huge), ..PriceBands::none() },
        }),
    };
    assert!(plan.calculate(&usage(), PriceBand::Standard).is_none());
}

#[test]
fn a_price_list_goes_with_the_capability() {
    let list = || Some(BillingDescriptor { prices: vec![model("m")] });
    assert_eq!(refusal(list(), &manifest(vec![Stage::Execution])), None);
    assert_eq!(
        refusal(None, &manifest(vec![Stage::Execution])),
        Some(AdminReason::BillingCapability)
    );
    assert_eq!(
        refusal(list(), &manifest(vec![Stage::Management])),
        Some(AdminReason::BillingCapability)
    );
    let bare = Manifest { contributes: vec![] };
    assert_eq!(refusal(list(), &bare), Some(AdminReason::BillingCapability));
    assert_eq!(refusal(None, &bare), None);
}

#[test]
fn a_price_list_is_checked() {
    let checked = |prices: Vec<DeclaredModel>| {
        refusal(Some(BillingDescriptor { prices }), &manifest(vec![Stage::Execution]))
    };
    assert_eq!(
        checked(vec![DeclaredModel { is_model: false, ..model("m") }]),
        Some(AdminReason::PriceModelId)
    );
    assert_eq!(
        checked(vec![model("a"), DeclaredModel { standard: None, ..model("m") }]),
        Some(AdminReason::PriceWithoutStandard)
    );
    let unpriced = Some(DeclaredPrices {
        input: None,
        output: Some(1),
        cache_read: Some(1),
        cache_write: Some(1),
    });
    assert_eq!(
        checked(vec![DeclaredModel { flex: unpriced, ..model("m") }]),
        Some(AdminReason::PriceAmount)
    );
    let many: Vec<DeclaredModel> = (0..4097).map(|i| model(&format!("m{i}"))).collect();
    assert_eq!(checked(many), Some(AdminReason::TooManyPrices));
}
