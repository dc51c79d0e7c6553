//! What a request costs: the prices a plugin declares, the prices an operator sets over them, and
//! the cost of a number of tokens. Amounts are counted in ticks, the smallest part of a dollar that
//! is accounted for.

use vstd::prelude::*;

use crate::fault::{refused, AdminError, AdminReason};
use crate::manifest::{Capability, Manifest, Stage};
use crate::table::{entry, find, table};

verus! {

/// The most models that a price list may name.
pub const MAX_PRICED_MODELS: usize = 4096;

/// The multiplier of a price that is charged as it stands, in hundredths of a percent.
pub const PLAIN_MULTIPLIER_BPS: u32 = 10_000;

/// Under which conditions a request is served.
#[derive(Clone, Copy, Debug, PartialEq, Eq, Structural)]
pub enum PriceBand {
    Standard,
    Fast,
    Flex,
    LongStandard,
    LongFast,
    LongFlex,
}

/// The bands for requests with a long context.
pub open spec fn is_long(band: PriceBand) -> bool {
    band is LongStandard || band is LongFast || band is LongFlex
}

/// The band that a band's discount or surcharge is measured by.
pub open spec fn base_band(band: PriceBand) -> PriceBand {
    if is_long(band) {
        PriceBand::LongStandard
    } else {
        PriceBand::Standard
    }
}

/// What one token costs, in ticks.
#[derive(Clone, Copy, Debug, PartialEq, Eq, Structural)]
pub struct TokenPrices {
    pub input: u128,
    pub output: u128,
    pub cache_read: u128,
    pub cache_write: u128,
}

/// The prices of a model in each band.
#[derive(Clone, Copy, Debug, PartialEq, Eq, Structural)]
pub struct PriceBands {
    pub standard: Option<TokenPrices>,
    pub fast: Option<TokenPrices>,
    pub flex: Option<TokenPrices>,
    pub long_standard: Option<TokenPrices>,
    pub long_fast: Option<TokenPrices>,
    pub long_flex: Option<TokenPrices>,
}

/// The price in a band, or else another.
pub open spec fn preferred(first: Option<TokenPrices>, second: Option<TokenPrices>) -> Option<
    TokenPrices,
> {
    if first is Some {
        first
    } else {
        second
    }
}

fn prefer(first: Option<TokenPrices>, second: Option<TokenPrices>) -> (r: Option<TokenPrices>)
    ensures
        r == preferred(first, second),
{
    match first {
        Some(prices) => Some(prices),
        None => second,
    }
}

impl PriceBands {
    /// The prices in a band.
    pub open spec fn at(self, band: PriceBand) -> Option<TokenPrices> {
        match band {
            PriceBand::Standard => self.standard,
            PriceBand::Fast => self.fast,
            PriceBand::Flex => self.flex,
            PriceBand::LongStandard => self.long_standard,
            PriceBand::LongFast => self.long_fast,
            PriceBand::LongFlex => self.long_flex,
        }
    }

    pub fn get(&self, band: PriceBand) -> (prices: Option<TokenPrices>)
        ensures
            prices == self.at(band),
    {
        match band {
            PriceBand::Standard => self.standard,
            PriceBand::Fast => self.fast,
            PriceBand::Flex => self.flex,
            PriceBand::LongStandard => self.long_standard,
            PriceBand::LongFast => self.long_fast,
            PriceBand::LongFlex => self.long_flex,
        }
    }

    /// No price in any band.
    pub fn none() -> (bands: Self)
        ensures
            forall|band: PriceBand| (#[trigger] bands.at(band)) is None,
    {
        PriceBands {
            standard: None,
            fast: None,
            flex: None,
            long_standard: None,
            long_fast: None,
            long_flex: None,
        }
    }

    /// These prices, with those of another list put over them.
    pub fn extended(&self, other: &PriceBands) -> (bands: Self)
        ensures
            forall|band: PriceBand| #[trigger]
                bands.at(band) == preferred(other.at(band), self.at(band)),
    {
        PriceBands {
            standard: prefer(other.standard, self.standard),
            fast: prefer(other.fast, self.fast),
            flex: prefer(other.flex, self.flex),
            long_standard: prefer(other.long_standard, self.long_standard),
            long_fast: prefer(other.long_fast, self.long_fast),
            long_flex: prefer(other.long_flex, self.long_flex),
        }
    }
}

/// The prices of a model and the multiplier on them, in hundredths of a percent.
#[derive(Clone, Copy, Debug, PartialEq, Eq, Structural)]
pub struct ModelPrice {
    pub multiplier_bps: u32,
    pub bands: PriceBands,
}

/// The prices of a provider's models.
pub struct ProviderPricingCatalog {
    pub models: Vec<(String, ModelPrice)>,
}

impl View for ProviderPricingCatalog {
    type V = Map<Seq<char>, ModelPrice>;

    open spec fn view(&self) -> Map<Seq<char>, ModelPrice> {
        table(self.models@)
    }
}

/// The price of a token as a plugin declares it: in ticks, or nothing where the amount is none that
/// can be charged.
#[derive(Clone, Copy, Debug, PartialEq, Eq, Structural)]
pub struct DeclaredPrices {
    pub input: Option<u128>,
    pub output: Option<u128>,
    pub cache_read: Option<u128>,
    pub cache_write: Option<u128>,
}

/// The prices of a model as a plugin declares them.
pub struct DeclaredModel {
    pub model: String,
    /// The name can be that of a model.
    pub is_model: bool,
    pub standard: Option<DeclaredPrices>,
    pub fast: Option<DeclaredPrices>,
    pub flex: Option<DeclaredPrices>,
    pub long_standard: Option<DeclaredPrices>,
    pub long_fast: Option<DeclaredPrices>,
    pub long_flex: Option<DeclaredPrices>,
}

/// The price list that a plugin declares.
pub struct BillingDescriptor {
    pub prices: Vec<DeclaredModel>,
}

/// Every amount can be charged.
pub open spec fn is_chargeable(prices: Option<DeclaredPrices>) -> bool {
    prices matches Some(p) ==> p.input is Some && p.output is Some && p.cache_read is Some
        && p.cache_write is Some
}

/// The amounts that are charged.
pub open spec fn charged(prices: Option<DeclaredPrices>) -> Option<TokenPrices> {
    match prices {
        Some(p) => Some(
            TokenPrices {
                input: p.input->0,
                output: p.output->0,
                cache_read: p.cache_read->0,
                cache_write: p.cache_write->0,
            },
        ),
        None => None,
    }
}

/// Every amount of a model can be charged.
pub open spec fn is_chargeable_model(model: DeclaredModel) -> bool {
    is_chargeable(model.standard) && is_chargeable(model.fast) && is_chargeable(model.flex)
        && is_chargeable(model.long_standard) && is_chargeable(model.long_fast) && is_chargeable(
        model.long_flex,
    )
}

/// The prices that are charged for a model.
pub open spec fn charged_model(model: DeclaredModel) -> ModelPrice {
    ModelPrice {
        multiplier_bps: PLAIN_MULTIPLIER_BPS,
        bands: PriceBands {
            standard: charged(model.standard),
            fast: charged(model.fast),
            flex: charged(model.flex),
            long_standard: charged(model.long_standard),
            long_fast: charged(model.long_fast),
            long_flex: charged(model.long_flex),
        },
    }
}

/// What is wrong with the declared prices of a model.
pub open spec fn model_price_fault(model: DeclaredModel) -> Option<AdminReason> {
    if !model.is_model {
        Some(AdminReason::PriceModelId)
    } else if model.standard is None {
        Some(AdminReason::PriceWithoutStandard)
    } else if !is_chargeable_model(model) {
        Some(AdminReason::PriceAmount)
    } else {
        None
    }
}

/// The first thing that is wrong with a price list.
pub open spec fn price_list_fault(prices: Seq<DeclaredModel>) -> Option<AdminReason>
    decreases prices.len(),
{
    if prices.len() == 0 {
        None
    } else if price_list_fault(prices.drop_last()) is Some {
        price_list_fault(prices.drop_last())
    } else {
        model_price_fault(prices.last())
    }
}

/// The prices that are charged under a price list.
pub open spec fn charged_list(prices: Seq<DeclaredModel>) -> Map<Seq<char>, ModelPrice>
    decreases prices.len(),
{
    if prices.len() == 0 {
        Map::empty()
    } else {
        charged_list(prices.drop_last()).insert(
            prices.last().model@,
            charged_model(prices.last()),
        )
    }
}

/// What is wrong with a declared price list.
pub open spec fn billing_fault(
    descriptor: Option<BillingDescriptor>,
    manifest: Manifest,
) -> Option<AdminReason> {
    if manifest.contributes_to(Capability::Billing) != (descriptor is Some)
        || manifest.contributes_to(Capability::Billing) && !manifest.contributes_at(
        Capability::Billing,
        Stage::Execution,
    ) {
        Some(AdminReason::BillingCapability)
    } else {
        match descriptor {
            None => None,
            Some(descriptor) => if descriptor.prices@.len() > MAX_PRICED_MODELS {
                Some(AdminReason::TooManyPrices)
            } else {
                price_list_fault(descriptor.prices@)
            },
        }
    }
}

fn charge(prices: &Option<DeclaredPrices>) -> (r: Option<Option<TokenPrices>>)
    ensures
        r is Some == is_chargeable(*prices),
        r matches Some(p) ==> p == charged(*prices),
{
    match prices {
        None => Some(None),
        Some(p) => match (p.input, p.output, p.cache_read, p.cache_write) {
            (Some(input), Some(output), Some(cache_read), Some(cache_write)) => Some(
                Some(TokenPrices { input, output, cache_read, cache_write }),
            ),
            _ => None,
        },
    }
}

fn charge_model(model: &DeclaredModel) -> (r: Option<ModelPrice>)
    ensures
        r is Some == is_chargeable_model(*model),
        r matches Some(p) ==> p == charged_model(*model),
{
    match (
        charge(&model.standard),
        charge(&model.fast),
        charge(&model.flex),
        charge(&model.long_standard),
        charge(&model.long_fast),
        charge(&model.long_flex),
    ) {
        (
            Some(standard),
            Some(fast),
            Some(flex),
            Some(long_standard),
            Some(long_fast),
            Some(long_flex),
        ) => Some(
            ModelPrice {
                multiplier_bps: PLAIN_MULTIPLIER_BPS,
                bands: PriceBands { standard, fast, flex, long_standard, long_fast, long_flex },
            },
        ),
        _ => None,
    }
}

/// The price list of a provider, from what its plugin declares.
pub fn prepare(descriptor: Option<BillingDescriptor>, manifest: &Manifest) -> (result: Result<
    Option<ProviderPricingCatalog>,
    AdminError,
>)
    ensures
        match billing_fault(descriptor, *manifest) {
            Some(reason) => result matches Err(error) && error == refused(reason),
            None => result is Ok,
        },
        result matches Ok(catalog) ==> catalog is Some == descriptor is Some,
        result matches Ok(Some(catalog)) ==> catalog@ == charged_list(descriptor->0.prices@),
{
    let declared = manifest.declares(Capability::Billing);
    if declared != descriptor.is_some() || declared && !manifest.declares_at(
        Capability::Billing,
        Stage::Execution,
    ) {
        return Err(AdminError::invalid(AdminReason::BillingCapability));
    }
    let list = match &descriptor {
        Some(list) => list,
        None => return Ok(None),
    };
    let prices = &list.prices;
    if prices.len() > MAX_PRICED_MODELS {
        return Err(AdminError::invalid(AdminReason::TooManyPrices));
    }
    let mut models: Vec<(String, ModelPrice)> = Vec::new();
    proof {
        assert(prices@.take(0) =~= Seq::<DeclaredModel>::empty());
    }
    for k in 0..prices.len()
        invariant
            price_list_fault(prices@.take(k as int)) is None,
            table(models@) == charged_list(prices@.take(k as int)),
            descriptor is Some,
            prices@ == descriptor->0.prices@,
            billing_fault(descriptor, *manifest) == price_list_fault(prices@),
    {
        let model = &prices[k];
        proof {
            assert(prices@.take(k + 1).drop_last() =~= prices@.take(k as int));
            assert(prices@.take(k + 1).last() == *model);
            lemma_first_fault(prices@, k as int);
        }
        if !model.is_model {
            return Err(AdminError::invalid(AdminReason::PriceModelId));
        }
        if model.standard.is_none() {
            return Err(AdminError::invalid(AdminReason::PriceWithoutStandard));
        }
        let price = match charge_model(model) {
            Some(price) => price,
            None => return Err(AdminError::invalid(AdminReason::PriceAmount)),
        };
        let ghost before = models@;
        models.push((model.model.clone(), price));
        assert(models@.drop_last() =~= before);
    }
    assert(prices@.take(prices@.len() as int) =~= prices@);
    Ok(Some(ProviderPricingCatalog { models }))
}

/// The first fault of a list is that of the whole list.
proof fn lemma_first_fault(prices: Seq<DeclaredModel>, k: int)
    requires
        0 <= k < prices.len(),
        price_list_fault(prices.take(k)) is None,
    ensures
        model_price_fault(prices[k]) is Some ==> price_list_fault(prices) == model_price_fault(
            prices[k],
        ),
    decreases prices.len() - k,
{
    let upto = prices.take(k + 1);
    assert(upto.drop_last() =~= prices.take(k));
    assert(upto.last() == prices[k]);
    if model_price_fault(prices[k]) is Some {
        lemma_fault_stays(prices, k + 1);
    }
}

/// A fault of the front of a list stays the fault of the list.
proof fn lemma_fault_stays(prices: Seq<DeclaredModel>, n: int)
    requires
        0 <= n <= prices.len(),
        price_list_fault(prices.take(n)) is Some,
    ensures
        price_list_fault(prices) == price_list_fault(prices.take(n)),
    decreases prices.len() - n,
{
    if n == prices.len() {
        assert(prices.take(n) =~= prices);
    } else {
        let next = prices.take(n + 1);
        assert(next.drop_last() =~= prices.take(n));
        lemma_fault_stays(prices, n + 1);
    }
}

/// The prices of one attempt, fixed when it starts.
pub struct BillingPlan {
    pub enabled: bool,
    pub price: Option<ModelPrice>,
}

/// A price, with what an operator set put over it.
pub open spec fn is_overridden(
    default: Option<ModelPrice>,
    custom: ModelPrice,
    price: ModelPrice,
) -> bool {
    &&& price.multiplier_bps == custom.multiplier_bps
    &&& forall|band: PriceBand| #[trigger]
        price.bands.at(band) == preferred(
            custom.bands.at(band),
            match default {
                Some(default) => default.bands.at(band),
                None => None,
            },
        )
}

/// The plan of an attempt: whether it is charged at all, and at which price.
pub open spec fn is_plan(
    defaults: Option<&ProviderPricingCatalog>,
    model: Option<&str>,
    overrides: Option<&ProviderPricingCatalog>,
    plan: BillingPlan,
) -> bool {
    &&& plan.enabled == defaults is Some
    &&& model is None ==> plan.price is None
    &&& model matches Some(model) ==> {
        let default = match defaults {
            Some(catalog) => entry(catalog.models@, model@),
            None => None,
        };
        let custom = match overrides {
            Some(catalog) => entry(catalog.models@, model@),
            None => None,
        };
        match custom {
            Some(custom) => plan.price matches Some(price) && is_overridden(default, custom, price),
            None => plan.price == default,
        }
    }
}

fn listed_price(catalog: Option<&ProviderPricingCatalog>, model: &str) -> (price: Option<ModelPrice>)
    ensures
        price == match catalog {
            Some(catalog) => entry(catalog.models@, model@),
            None => None,
        },
{
    match catalog {
        Some(catalog) => match find(&catalog.models, model) {
            Some(k) => Some(catalog.models[k].1),
            None => None,
        },
        None => None,
    }
}

impl BillingPlan {
    pub fn new(
        defaults: Option<&ProviderPricingCatalog>,
        model: Option<&str>,
        overrides: Option<&ProviderPricingCatalog>,
    ) -> (plan: Self)
        ensures
            is_plan(defaults, model, overrides, plan),
    {
        let enabled = defaults.is_some();
        let model = match model {
            Some(model) => model,
            None => return BillingPlan { enabled, price: None },
        };
        let default = listed_price(defaults, model);
        let custom = listed_price(overrides, model);
        let price = match custom {
            None => default,
            Some(custom) => {
                let base = match default {
                    Some(default) => default.bands,
                    None => PriceBands::none(),
                };
                Some(
                    ModelPrice {
                        multiplier_bps: custom.multiplier_bps,
                        bands: base.extended(&custom.bands),
                    },
                )
            },
        };
        BillingPlan { enabled, price }
    }
}

/// How many tokens a request took.
#[derive(Clone, Copy, Debug, PartialEq, Eq, Structural)]
pub struct Usage {
    pub input_tokens: Option<u64>,
    pub output_tokens: Option<u64>,
    pub cached_tokens: Option<u64>,
    pub cache_write_tokens: Option<u64>,
    pub reasoning_tokens: Option<u64>,
    pub image_input_tokens: Option<u64>,
    pub image_output_tokens: Option<u64>,
    pub total_tokens: Option<u64>,
}

/// The tokens that are charged, each at its own price.
pub struct BilledTokens {
    pub input: u64,
    pub output: u64,
    pub read: u64,
    pub write: u64,
}

/// Images are charged otherwise.
pub open spec fn has_images(usage: Usage) -> bool {
    (usage.image_input_tokens matches Some(n) && n > 0) || (usage.image_output_tokens matches Some(n)
        && n > 0)
}

/// How the tokens of a request are charged. Nothing is guessed: where a count is missing, the
/// counts contradict each other or images are among them, no cost is calculated.
pub open spec fn billed_tokens(usage: Usage) -> Option<BilledTokens> {
    match (usage.input_tokens, usage.output_tokens, usage.cached_tokens, usage.cache_write_tokens) {
        (Some(input), Some(output), Some(read), Some(write)) => if has_images(usage) || read + write
            > input {
            None
        } else {
            Some(BilledTokens { input: (input - read - write) as u64, output, read, write })
        },
        _ => None,
    }
}

/// The cost of tokens, by kind, in ticks.
pub struct TokenAmounts {
    pub input: u128,
    pub output: u128,
    pub read: u128,
    pub write: u128,
}

pub open spec fn input_cost(prices: TokenPrices, tokens: BilledTokens) -> int {
    tokens.input * prices.input
}

pub open spec fn output_cost(prices: TokenPrices, tokens: BilledTokens) -> int {
    tokens.output * prices.output
}

pub open spec fn read_cost(prices: TokenPrices, tokens: BilledTokens) -> int {
    tokens.read * prices.cache_read
}

pub open spec fn write_cost(prices: TokenPrices, tokens: BilledTokens) -> int {
    tokens.write * prices.cache_write
}

/// The cost of tokens, in ticks.
pub open spec fn token_cost(prices: TokenPrices, tokens: BilledTokens) -> int {
    input_cost(prices, tokens) + output_cost(prices, tokens) + read_cost(prices, tokens)
        + write_cost(prices, tokens)
}

/// What a cost is in percent of another, to the nearest whole.
pub open spec fn percent_of(total: int, standard: int) -> int {
    if standard == 0 {
        100
    } else {
        (total * 100 + standard / 2) / standard
    }
}

/// The class of service that a band stands for.
#[derive(Clone, Copy, Debug, PartialEq, Eq, Structural)]
pub enum ServiceTier {
    Default,
    Priority,
    Flex,
}

impl ServiceTier {
    /// The name of the class.
    pub open spec fn spec_name(self) -> Seq<char> {
        match self {
            ServiceTier::Default => "default"@,
            ServiceTier::Priority => "priority"@,
            ServiceTier::Flex => "flex"@,
        }
    }

    pub fn name(self) -> (name: &'static str)
        ensures
            name@ == self.spec_name(),
    {
        match self {
            ServiceTier::Default => "default",
            ServiceTier::Priority => "priority",
            ServiceTier::Flex => "flex",
        }
    }
}

pub open spec fn service_tier(band: PriceBand) -> ServiceTier {
    match band {
        PriceBand::Standard | PriceBand::LongStandard => ServiceTier::Default,
        PriceBand::Fast | PriceBand::LongFast => ServiceTier::Priority,
        PriceBand::Flex | PriceBand::LongFlex => ServiceTier::Flex,
    }
}

/// What a request cost, before the operator's multiplier. Amounts are in ticks, rates in ticks for a
/// million tokens.
#[derive(Clone, Copy, Debug, PartialEq, Eq, Structural)]
pub struct CalculatedCost {
    pub input: u128,
    pub output: u128,
    pub cache_read: u128,
    pub cache_write: u128,
    pub standard: u128,
    pub total: u128,
    pub input_rate: u128,
    pub output_rate: u128,
    pub cache_read_rate: u128,
    pub cache_write_rate: u128,
    pub service_tier: ServiceTier,
    pub multiplier_percent: u32,
    pub long_context: bool,
    pub multiplier_bps: u32,
}

/// The cost of tokens at the prices of a band, where the band costs `selected` and its base band
/// `standard`.
pub open spec fn cost_at(
    price: ModelPrice,
    band: PriceBand,
    selected: TokenPrices,
    standard: TokenPrices,
    tokens: BilledTokens,
) -> CalculatedCost {
    CalculatedCost {
        input: input_cost(selected, tokens) as u128,
        output: output_cost(selected, tokens) as u128,
        cache_read: read_cost(selected, tokens) as u128,
        cache_write: write_cost(selected, tokens) as u128,
        standard: token_cost(standard, tokens) as u128,
        total: token_cost(selected, tokens) as u128,
        input_rate: (selected.input * 1_000_000) as u128,
        output_rate: (selected.output * 1_000_000) as u128,
        cache_read_rate: (selected.cache_read * 1_000_000) as u128,
        cache_write_rate: (selected.cache_write * 1_000_000) as u128,
        service_tier: service_tier(band),
        multiplier_percent: percent_of(
            token_cost(selected, tokens),
            token_cost(standard, tokens),
        ) as u32,
        long_context: is_long(band),
        multiplier_bps: price.multiplier_bps,
    }
}

/// Every number of a cost can be written down.
pub open spec fn cost_fits(
    selected: TokenPrices,
    standard: TokenPrices,
    tokens: BilledTokens,
) -> bool {
    let total = token_cost(selected, tokens);
    let base = token_cost(standard, tokens);
    &&& total <= u128::MAX
    &&& base <= u128::MAX
    &&& base > 0 ==> total * 100 + base / 2 <= u128::MAX
    &&& percent_of(total, base) <= u32::MAX
    &&& selected.input * 1_000_000 <= u128::MAX
    &&& selected.output * 1_000_000 <= u128::MAX
    &&& selected.cache_read * 1_000_000 <= u128::MAX
    &&& selected.cache_write * 1_000_000 <= u128::MAX
}

/// What a request costs under a plan, where that can be said.
pub open spec fn plan_cost(price: Option<ModelPrice>, usage: Usage, band: PriceBand) -> Option<
    CalculatedCost,
> {
    match price {
        None => None,
        Some(price) => match (
            price.bands.at(base_band(band)),
            price.bands.at(band),
            billed_tokens(usage),
        ) {
            (Some(standard), Some(selected), Some(tokens)) => if cost_fits(
                selected,
                standard,
                tokens,
            ) {
                Some(cost_at(price, band, selected, standard, tokens))
            } else {
                None
            },
            _ => None,
        },
    }
}

/// The cost of a number of tokens of one kind.
fn amount(tokens: u64, price: u128) -> (r: Option<u128>)
    ensures
        r is Some == (tokens * price <= u128::MAX),
        r matches Some(a) ==> a == tokens * price,
{
    proof {
        assert(tokens * price >= 0) by (nonlinear_arith);
    }
    (tokens as u128).checked_mul(price)
}

impl TokenAmounts {
    pub fn total(&self) -> (r: Option<u128>)
        ensures
            r is Some == (self.input + self.output + self.read + self.write <= u128::MAX),
            r matches Some(t) ==> t == self.input + self.output + self.read + self.write,
    {
        let sum = self.input.checked_add(self.output)?;
        let sum = sum.checked_add(self.read)?;
        sum.checked_add(self.write)
    }
}

pub fn token_amounts(prices: &TokenPrices, tokens: &BilledTokens) -> (r: Option<TokenAmounts>)
    ensures
        r is Some == (input_cost(*prices, *tokens) <= u128::MAX && output_cost(*prices, *tokens)
            <= u128::MAX && read_cost(*prices, *tokens) <= u128::MAX && write_cost(*prices, *tokens)
            <= u128::MAX),
        r matches Some(a) ==> a.input == input_cost(*prices, *tokens) && a.output == output_cost(
            *prices,
            *tokens,
        ) && a.read == read_cost(*prices, *tokens) && a.write == write_cost(*prices, *tokens),
{
    let input = amount(tokens.input, prices.input)?;
    let output = amount(tokens.output, prices.output)?;
    let read = amount(tokens.read, prices.cache_read)?;
    let write = amount(tokens.write, prices.cache_write)?;
    Some(TokenAmounts { input, output, read, write })
}

/// The kinds of cost are not negative.
proof fn lemma_costs_are_positive(prices: TokenPrices, tokens: BilledTokens)
    ensures
        input_cost(prices, tokens) >= 0,
        output_cost(prices, tokens) >= 0,
        read_cost(prices, tokens) >= 0,
        write_cost(prices, tokens) >= 0,
{
    assert(tokens.input * prices.input >= 0) by (nonlinear_arith);
    assert(tokens.output * prices.output >= 0) by (nonlinear_arith);
    assert(tokens.read * prices.cache_read >= 0) by (nonlinear_arith);
    assert(tokens.write * prices.cache_write >= 0) by (nonlinear_arith);
}

/// The tokens of a request that are charged, by kind.
pub fn bill_tokens(usage: &Usage) -> (tokens: Option<BilledTokens>)
    ensures
        tokens == billed_tokens(*usage),
{
    let input = usage.input_tokens?;
    let output = usage.output_tokens?;
    let read = usage.cached_tokens?;
    let write = usage.cache_write_tokens?;
    match usage.image_input_tokens {
        Some(count) => if count > 0 {
            return None;
        },
        None => {},
    }
    match usage.image_output_tokens {
        Some(count) => if count > 0 {
            return None;
        },
        None => {},
    }
    let uncached = input.checked_sub(read)?;
    let uncached = uncached.checked_sub(write)?;
    Some(BilledTokens { input: uncached, output, read, write })
}

/// What a total is in percent of another, where that can be written down.
fn percentage(total: u128, standard: u128) -> (r: Option<u32>)
    ensures
        r is Some == ((standard > 0 ==> total * 100 + standard / 2 <= u128::MAX) && percent_of(
            total as int,
            standard as int,
        ) <= u32::MAX),
        r matches Some(p) ==> p == percent_of(total as int, standard as int),
{
    if standard == 0 {
        return Some(100);
    }
    let scaled = total.checked_mul(100)?;
    let rounded = scaled.checked_add(standard / 2)?;
    let percent = rounded / standard;
    if percent <= u32::MAX as u128 {
        Some(percent as u32)
    } else {
        None
    }
}

impl BillingPlan {
    pub fn enabled(&self) -> (r: bool)
        ensures
            r == self.enabled,
    {
        self.enabled
    }

    pub fn calculate(&self, usage: &Usage, band: PriceBand) -> (cost: Option<CalculatedCost>)
        ensures
            cost == plan_cost(self.price, *usage, band),
    {
        let price = self.price?;
        let long = matches!(
            band,
            PriceBand::LongStandard | PriceBand::LongFast | PriceBand::LongFlex
        );
        let standard = price.bands.get(
            if long {
                PriceBand::LongStandard
            } else {
                PriceBand::Standard
            },
        )?;
        let selected = price.bands.get(band)?;
        let tokens = bill_tokens(usage)?;
        proof {
            lemma_costs_are_positive(selected, tokens);
            lemma_costs_are_positive(standard, tokens);
        }
        let amounts = token_amounts(&selected, &tokens)?;
        let standard_amounts = token_amounts(&standard, &tokens)?;
        let standard_total = standard_amounts.total()?;
        let total = amounts.total()?;
        let multiplier_percent = percentage(total, standard_total)?;
        let input_rate = selected.input.checked_mul(1_000_000)?;
        let output_rate = selected.output.checked_mul(1_000_000)?;
        let cache_read_rate = selected.cache_read.checked_mul(1_000_000)?;
        let cache_write_rate = selected.cache_write.checked_mul(1_000_000)?;
        let service_tier = match band {
            PriceBand::Standard | PriceBand::LongStandard => ServiceTier::Default,
            PriceBand::Fast | PriceBand::LongFast => ServiceTier::Priority,
            PriceBand::Flex | PriceBand::LongFlex => ServiceTier::Flex,
        };
        Some(
            CalculatedCost {
                input: amounts.input,
                output: amounts.output,
                cache_read: amounts.read,
                cache_write: amounts.write,
                standard: standard_total,
                total,
                input_rate,
                output_rate,
                cache_read_rate,
                cache_write_rate,
                service_tier,
                multiplier_percent,
                long_context: long,
                multiplier_bps: price.multiplier_bps,
            },
        )
    }
}

/// The parts of a cost add up to its total.
pub proof fn parts_add_up(price: Option<ModelPrice>, usage: Usage, band: PriceBand)
    ensures
        plan_cost(price, usage, band) matches Some(cost) ==> cost.total == cost.input + cost.output
            + cost.cache_read + cost.cache_write,
{
    if plan_cost(price, usage, band) is Some {
        let p = price->0;
        lemma_costs_are_positive(p.bands.at(band)->0, billed_tokens(usage)->0);
    }
}

/// A base band costs exactly what it is measured by.
pub proof fn base_band_is_plain(price: Option<ModelPrice>, usage: Usage, band: PriceBand)
    requires
        band == base_band(band),
    ensures
        plan_cost(price, usage, band) matches Some(cost) ==> cost.multiplier_percent == 100
            && cost.total == cost.standard,
{
    if plan_cost(price, usage, band) is Some {
        let p = price->0;
        let prices = p.bands.at(band)->0;
        let tokens = billed_tokens(usage)->0;
        lemma_costs_are_positive(prices, tokens);
        let t = token_cost(prices, tokens);
        if t > 0 {
            assert((t * 100 + t / 2) / t == 100) by (nonlinear_arith)
                requires
                    t > 0,
            ;
        }
    }
}

/// A model that has no price in the band it was served in, or none in the band that one is measured
/// by, has no calculated cost.
pub proof fn no_price_no_cost(price: Option<ModelPrice>, usage: Usage, band: PriceBand)
    requires
        price matches Some(p) ==> p.bands.at(band) is None || p.bands.at(base_band(band)) is None,
    ensures
        plan_cost(price, usage, band) is None,
{
}

/// In every band the operator's price is charged where one is set; where none is, the declared one
/// is, and none where none is declared. The multiplier is the operator's.
pub proof fn operator_price_wins(
    defaults: Option<&ProviderPricingCatalog>,
    model: &str,
    overrides: &ProviderPricingCatalog,
    plan: BillingPlan,
)
    requires
        overrides@.contains_key(model@),
        is_plan(defaults, Some(model), Some(overrides), plan),
    ensures
        plan.price is Some,
        ({
            let set = overrides@[model@];
            let has_declared = defaults is Some && defaults->0@.contains_key(model@);
            let declared = defaults->0@[model@];
            let used = plan.price->0;
            &&& used.multiplier_bps == set.multiplier_bps
            &&& set.bands.standard is Some ==> used.bands.standard == set.bands.standard
            &&& set.bands.standard is None && has_declared ==> used.bands.standard == declared.bands.standard
            &&& set.bands.standard is None && !has_declared ==> used.bands.standard is None
            &&& set.bands.fast is Some ==> used.bands.fast == set.bands.fast
            &&& set.bands.fast is None && has_declared ==> used.bands.fast == declared.bands.fast
            &&& set.bands.fast is None && !has_declared ==> used.bands.fast is None
            &&& set.bands.flex is Some ==> used.bands.flex == set.bands.flex
            &&& set.bands.flex is None && has_declared ==> used.bands.flex == declared.bands.flex
            &&& set.bands.flex is None && !has_declared ==> used.bands.flex is None
            &&& set.bands.long_standard is Some ==> used.bands.long_standard == set.bands.long_standard
            &&& set.bands.long_standard is None && has_declared ==> used.bands.long_standard == declared.bands.long_standard
            &&& set.bands.long_standard is None && !has_declared ==> used.bands.long_standard is None
            &&& set.bands.long_fast is Some ==> used.bands.long_fast == set.bands.long_fast
            &&& set.bands.long_fast is None && has_declared ==> used.bands.long_fast == declared.bands.long_fast
            &&& set.bands.long_fast is None && !has_declared ==> used.bands.long_fast is None
            &&& set.bands.long_flex is Some ==> used.bands.long_flex == set.bands.long_flex
            &&& set.bands.long_flex is None && has_declared ==> used.bands.long_flex == declared.bands.long_flex
            &&& set.bands.long_flex is None && !has_declared ==> used.bands.long_flex is None
        }),
{
    let used = plan.price->0;
    let set = overrides@[model@];
    assert(entry(overrides.models@, model@) == Some(set));
    assert(used.bands.at(PriceBand::Standard) == used.bands.standard);
    assert(used.bands.at(PriceBand::Fast) == used.bands.fast);
    assert(used.bands.at(PriceBand::Flex) == used.bands.flex);
    assert(used.bands.at(PriceBand::LongStandard) == used.bands.long_standard);
    assert(used.bands.at(PriceBand::LongFast) == used.bands.long_fast);
    assert(used.bands.at(PriceBand::LongFlex) == used.bands.long_flex);
}

/// Where an operator set nothing for a model, what is declared of it is charged, and nothing where
/// nothing is declared. Whether an attempt is charged at all is for the plugin to say.
pub proof fn declared_price_stands(
    defaults: Option<&ProviderPricingCatalog>,
    model: Option<&str>,
    overrides: Option<&ProviderPricingCatalog>,
    plan: BillingPlan,
)
    requires
        is_plan(defaults, model, overrides, plan),
    ensures
        plan.enabled <==> defaults is Some,
        model is None ==> plan.price is None,
        model is Some && (overrides is None || !overrides->0@.contains_key(model->0@)) ==> {
            &&& defaults is Some && defaults->0@.contains_key(model->0@) ==> plan.price == Some(
                defaults->0@[model->0@],
            )
            &&& defaults is None || !defaults->0@.contains_key(model->0@) ==> plan.price is None
        },
{
}

/// What is charged in a band is what is declared for it, amount for amount.
pub open spec fn is_declared_amount(
    charged: Option<TokenPrices>,
    declared: Option<DeclaredPrices>,
) -> bool {
    match (charged, declared) {
        (Some(c), Some(d)) => d.input == Some(c.input) && d.output == Some(c.output)
            && d.cache_read == Some(c.cache_read) && d.cache_write == Some(c.cache_write),
        (None, None) => true,
        _ => false,
    }
}

/// Every amount of a band is one that can be charged.
pub open spec fn has_amounts(declared: Option<DeclaredPrices>) -> bool {
    declared is Some ==> declared->0.input is Some && declared->0.output is Some
        && declared->0.cache_read is Some && declared->0.cache_write is Some
}

/// Under a price list that is in order, each model is charged what the last entry of its name declares
/// for each band, as it stands; no other model has a price.
pub proof fn charged_as_declared(prices: Seq<DeclaredModel>, k: int, name: Seq<char>)
    requires
        price_list_fault(prices) is None,
        0 <= k < prices.len(),
        forall|j: int| k < j < prices.len() ==> (#[trigger] prices[j]).model@ != prices[k].model@,
    ensures
        charged_list(prices).contains_key(prices[k].model@),
        charged_list(prices)[prices[k].model@].multiplier_bps == 10_000,
        is_declared_amount(charged_list(prices)[prices[k].model@].bands.standard, prices[k].standard),
        is_declared_amount(charged_list(prices)[prices[k].model@].bands.fast, prices[k].fast),
        is_declared_amount(charged_list(prices)[prices[k].model@].bands.flex, prices[k].flex),
        is_declared_amount(charged_list(prices)[prices[k].model@].bands.long_standard, prices[k].long_standard),
        is_declared_amount(charged_list(prices)[prices[k].model@].bands.long_fast, prices[k].long_fast),
        is_declared_amount(charged_list(prices)[prices[k].model@].bands.long_flex, prices[k].long_flex),
        charged_list(prices).contains_key(name) <==> exists|i: int|
            0 <= i < prices.len() && (#[trigger] prices[i]).model@ == name,
{
    lemma_charged_entry(prices, k);
    lemma_charged_names(prices, name);
    price_list_in_order(prices);
    assert(has_amounts(prices[k].standard));
}

proof fn lemma_charged_entry(prices: Seq<DeclaredModel>, k: int)
    requires
        0 <= k < prices.len(),
        forall|j: int| k < j < prices.len() ==> (#[trigger] prices[j]).model@ != prices[k].model@,
    ensures
        charged_list(prices).contains_key(prices[k].model@),
        charged_list(prices)[prices[k].model@] == charged_model(prices[k]),
    decreases prices.len(),
{
    if k < prices.len() - 1 {
        let front = prices.drop_last();
        assert forall|j: int| k < j < front.len() implies (#[trigger] front[j]).model@
            != front[k].model@ by {
            assert(prices[j].model@ != prices[k].model@);
        }
        lemma_charged_entry(front, k);
        assert(prices[prices.len() - 1].model@ != prices[k].model@);
    }
}

proof fn lemma_charged_names(prices: Seq<DeclaredModel>, name: Seq<char>)
    ensures
        charged_list(prices).contains_key(name) <==> exists|i: int|
            0 <= i < prices.len() && (#[trigger] prices[i]).model@ == name,
    decreases prices.len(),
{
    if prices.len() > 0 {
        let front = prices.drop_last();
        lemma_charged_names(front, name);
        assert(prices[prices.len() - 1] == prices.last());
        if charged_list(front).contains_key(name) {
            let i = choose|i: int| 0 <= i < front.len() && (#[trigger] front[i]).model@ == name;
            assert(prices[i].model@ == name);
        }
        if exists|i: int| 0 <= i < prices.len() && (#[trigger] prices[i]).model@ == name {
            let i = choose|i: int| 0 <= i < prices.len() && (#[trigger] prices[i]).model@ == name;
            if i < front.len() {
                assert(front[i].model@ == name);
            }
        }
    }
}

/// A price list is in order exactly if each name in it can be that of a model, each model has a
/// standard price, and every amount can be charged.
pub proof fn price_list_in_order(prices: Seq<DeclaredModel>)
    ensures
        price_list_fault(prices) is None <==> forall|k: int|
            0 <= k < prices.len() ==> (#[trigger] prices[k]).is_model && prices[k].standard is Some
                && has_amounts(prices[k].standard) && has_amounts(prices[k].fast) && has_amounts(prices[k].flex) && has_amounts(prices[k].long_standard) && has_amounts(prices[k].long_fast) && has_amounts(prices[k].long_flex),
    decreases prices.len(),
{
    if prices.len() > 0 {
        let front = prices.drop_last();
        price_list_in_order(front);
        assert(prices[prices.len() - 1] == prices.last());
        if price_list_fault(front) is None {
            assert forall|k: int| 0 <= k < prices.len() - 1 implies (#[trigger] prices[k]).is_model
                && prices[k].standard is Some && has_amounts(prices[k].standard) && has_amounts(prices[k].fast) && has_amounts(prices[k].flex) && has_amounts(prices[k].long_standard) && has_amounts(prices[k].long_fast) && has_amounts(prices[k].long_flex) by {
                assert(prices[k] == front[k]);
            }
        } else {
            let k = choose|k: int|
                0 <= k < front.len() && !((#[trigger] front[k]).is_model && front[k].standard
                    is Some && has_amounts(front[k].standard) && has_amounts(front[k].fast) && has_amounts(front[k].flex) && has_amounts(front[k].long_standard) && has_amounts(front[k].long_fast) && has_amounts(front[k].long_flex));
            assert(prices[k] == front[k]);
        }
    }
}

/// Prices are declared exactly where the plugin says that it bills, which it does while a request is
/// served, and for at most 4096 models.
pub proof fn billing_in_order(descriptor: Option<BillingDescriptor>, manifest: Manifest)
    ensures
        billing_fault(descriptor, manifest) is None ==> (descriptor is Some
            <==> manifest.contributes_to(Capability::Billing)),
        billing_fault(descriptor, manifest) is None && descriptor is Some ==> descriptor->0.prices@.len()
            <= 4096 && manifest.contributes_at(Capability::Billing, Stage::Execution)
            && price_list_fault(descriptor->0.prices@) is None,
        descriptor is None && !manifest.contributes_to(Capability::Billing) ==> billing_fault(
            descriptor,
            manifest,
        ) is None,
        descriptor is Some && manifest.contributes_to(Capability::Billing)
            && manifest.contributes_at(Capability::Billing, Stage::Execution)
            && descriptor->0.prices@.len() <= 4096 && price_list_fault(descriptor->0.prices@) is None
            ==> billing_fault(descriptor, manifest) is None,
        descriptor is Some && manifest.contributes_to(Capability::Billing)
            && manifest.contributes_at(Capability::Billing, Stage::Execution)
            && descriptor->0.prices@.len() > 4096 ==> billing_fault(descriptor, manifest) == Some(
            AdminReason::TooManyPrices,
        ),
{
}

/// What a request costs is, for each kind of tokens, their number times the price of one in the band
/// that it was served in. The input that is charged as such is what was neither read from a cache nor
/// written to one. Beside the total stands what the same tokens cost in the standard band, or in the
/// long standard one where the context is long, and what the total is of that in percent, to the
/// nearest whole. Nothing is said where a count is missing, images are among them, the counts
/// contradict each other or a number cannot be written down.
pub proof fn cost_by_the_token(
    price: ModelPrice,
    usage: Usage,
    band: PriceBand,
    selected: TokenPrices,
    standard: TokenPrices,
)
    requires
        band is Standard ==> price.bands.standard == Some(selected),
        band is Fast ==> price.bands.fast == Some(selected),
        band is Flex ==> price.bands.flex == Some(selected),
        band is LongStandard ==> price.bands.long_standard == Some(selected),
        band is LongFast ==> price.bands.long_fast == Some(selected),
        band is LongFlex ==> price.bands.long_flex == Some(selected),
        band is Standard || band is Fast || band is Flex ==> price.bands.standard == Some(standard),
        band is LongStandard || band is LongFast || band is LongFlex ==> price.bands.long_standard
            == Some(standard),
    ensures
        ({
            let cost = plan_cost(Some(price), usage, band);
            let given = usage.input_tokens is Some && usage.output_tokens is Some
                && usage.cached_tokens is Some && usage.cache_write_tokens is Some;
            let plain = (usage.image_input_tokens is None || usage.image_input_tokens == Some(0u64))
                && (usage.image_output_tokens is None || usage.image_output_tokens == Some(0u64));
            let read = usage.cached_tokens->0;
            let write = usage.cache_write_tokens->0;
            let input = usage.input_tokens->0 - read - write;
            let output = usage.output_tokens->0;
            let total = input * selected.input + output * selected.output + read
                * selected.cache_read + write * selected.cache_write;
            let base = input * standard.input + output * standard.output + read
                * standard.cache_read + write * standard.cache_write;
            &&& cost matches Some(c) ==> given && plain && input >= 0 && c.input == input
                * selected.input && c.output == output * selected.output && c.cache_read == read
                * selected.cache_read && c.cache_write == write * selected.cache_write && c.total
                == total && c.standard == base
            &&& cost matches Some(c) ==> c.input_rate == selected.input * 1_000_000 && c.output_rate
                == selected.output * 1_000_000 && c.cache_read_rate == selected.cache_read
                * 1_000_000 && c.cache_write_rate == selected.cache_write * 1_000_000
            &&& cost matches Some(c) ==> c.multiplier_bps == price.multiplier_bps && (c.long_context
                <==> band is LongStandard || band is LongFast || band is LongFlex) && (
            c.service_tier is Priority <==> band is Fast || band is LongFast) && (c.service_tier
                is Flex <==> band is Flex || band is LongFlex)
            &&& cost matches Some(c) ==> if base == 0 {
                c.multiplier_percent == 100
            } else {
                c.multiplier_percent * base <= total * 100 + base / 2 < (c.multiplier_percent + 1)
                    * base
            }
            &&& given && plain && input >= 0 && total <= u128::MAX && base <= u128::MAX && (base > 0
                ==> total * 100 + base / 2 <= u128::MAX && (total * 100 + base / 2) / base
                <= u32::MAX) && selected.input * 1_000_000 <= u128::MAX && selected.output
                * 1_000_000 <= u128::MAX && selected.cache_read * 1_000_000 <= u128::MAX
                && selected.cache_write * 1_000_000 <= u128::MAX ==> cost is Some
        }),
{
    assert(price.bands.at(band) == Some(selected));
    assert(price.bands.at(base_band(band)) == Some(standard));
    if billed_tokens(usage) is Some {
        let tokens = billed_tokens(usage)->0;
        lemma_costs_are_positive(selected, tokens);
        lemma_costs_are_positive(standard, tokens);
        let total = token_cost(selected, tokens);
        let base = token_cost(standard, tokens);
        if base > 0 {
            let scaled = total * 100 + base / 2;
            let percent = scaled / base;
            assert(percent * base <= scaled < (percent + 1) * base) by (nonlinear_arith)
                requires
                    base > 0,
                    percent == scaled / base,
            ;
            assert(percent >= 0) by (nonlinear_arith)
                requires
                    base > 0,
                    scaled >= 0,
                    percent == scaled / base,
            ;
        }
    }
}

/// No token is charged twice or left out: what is charged as input, as read from a cache and as
/// written to one is the input that was reported, and the output is the output that was reported.
pub proof fn every_token_is_charged_once(usage: Usage)
    ensures
        billed_tokens(usage) matches Some(tokens) ==> usage.input_tokens is Some && tokens.input
            + tokens.read + tokens.write == usage.input_tokens->0 && usage.output_tokens == Some(
            tokens.output,
        ) && usage.cached_tokens == Some(tokens.read) && usage.cache_write_tokens == Some(
            tokens.write,
        ),
{
}

/// Each class of service has a name of its own.
pub proof fn tiers_by_name()
    ensures
        ServiceTier::Default.spec_name() == "default"@,
        ServiceTier::Priority.spec_name() == "priority"@,
        ServiceTier::Flex.spec_name() == "flex"@,
{
}

} // verus!
