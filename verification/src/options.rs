//! Renderer configuration.

use vstd::prelude::*;

verus! {

/// How edges are smoothed.
#[derive(Clone, Copy, Debug, PartialEq, Eq, Structural)]
pub enum Antialiasing {
    Area,
    Msaa8,
    Msaa16,
}

impl Default for Antialiasing {
    fn default() -> (antialiasing: Self)
        ensures
            antialiasing == Antialiasing::Area,
    {
        Antialiasing::Area
    }
}

/// Policy for choosing effect precision on a compatible GPU.
#[derive(Clone, Copy, Debug, PartialEq, Eq, Structural)]
pub enum EffectQualityPolicy {
    /// Require high-precision effect execution.
    RequireHighPrecision,
    /// Prefer high precision and allow reduced precision only when it is unavailable.
    AllowReducedPrecision,
}

impl Default for EffectQualityPolicy {
    fn default() -> (policy: Self)
        ensures
            policy == EffectQualityPolicy::RequireHighPrecision,
    {
        EffectQualityPolicy::RequireHighPrecision
    }
}

/// Bytes of idle effect resources that are retained unless configured otherwise: 64 MiB.
pub const DEFAULT_RESOURCE_CACHE_BYTES: u64 = 64 * 1024 * 1024;

/// Byte budget for retaining idle effect resources.
#[derive(Clone, Copy, Debug, PartialEq, Eq, Structural)]
pub struct ResourceCacheBudget {
    bytes: u64,
}

impl ResourceCacheBudget {
    pub closed spec fn spec_bytes(self) -> u64 {
        self.bytes
    }

    /// Creates an idle effect-resource retention budget in bytes.
    pub fn new(bytes: u64) -> (budget: Self)
        ensures
            budget.spec_bytes() == bytes,
    {
        Self { bytes }
    }

    /// Disables idle effect-resource retention.
    pub fn disabled() -> (budget: Self)
        ensures
            budget.spec_bytes() == 0,
    {
        Self { bytes: 0 }
    }

    /// Returns this retention budget in bytes.
    pub fn bytes(self) -> (bytes: u64)
        ensures
            bytes == self.spec_bytes(),
    {
        self.bytes
    }
}

impl Default for ResourceCacheBudget {
    fn default() -> (budget: Self)
        ensures
            budget.spec_bytes() == DEFAULT_RESOURCE_CACHE_BYTES,
    {
        Self { bytes: DEFAULT_RESOURCE_CACHE_BYTES }
    }
}

/// Everything that renderer options say.
pub struct OptionsView {
    pub antialiasing: Antialiasing,
    pub debug: bool,
    pub effect_quality_policy: EffectQualityPolicy,
    pub resource_cache_budget: ResourceCacheBudget,
}

/// Renderer configuration that is fixed when a renderer is created.
#[derive(Clone, Copy, Debug, PartialEq, Eq, Structural)]
pub struct Options {
    antialiasing: Antialiasing,
    debug: bool,
    effect_quality_policy: EffectQualityPolicy,
    resource_cache_budget: ResourceCacheBudget,
}

impl View for Options {
    type V = OptionsView;

    closed spec fn view(&self) -> OptionsView {
        OptionsView {
            antialiasing: self.antialiasing,
            debug: self.debug,
            effect_quality_policy: self.effect_quality_policy,
            resource_cache_budget: self.resource_cache_budget,
        }
    }
}

impl Options {
    /// Creates the default GPU-only renderer configuration.
    pub fn new() -> (options: Self)
        ensures
            options@.antialiasing == Antialiasing::Area,
            !options@.debug,
            options@.effect_quality_policy == EffectQualityPolicy::RequireHighPrecision,
            options@.resource_cache_budget.spec_bytes() == DEFAULT_RESOURCE_CACHE_BYTES,
    {
        Self {
            antialiasing: Antialiasing::Area,
            debug: false,
            effect_quality_policy: EffectQualityPolicy::RequireHighPrecision,
            resource_cache_budget: ResourceCacheBudget { bytes: DEFAULT_RESOURCE_CACHE_BYTES },
        }
    }

    /// Returns the configured antialiasing method.
    pub fn antialiasing(self) -> (antialiasing: Antialiasing)
        ensures
            antialiasing == self@.antialiasing,
    {
        self.antialiasing
    }

    /// Returns this configuration with a different antialiasing method.
    pub fn with_antialiasing(self, antialiasing: Antialiasing) -> (options: Self)
        ensures
            options@ == (OptionsView { antialiasing, ..self@ }),
    {
        Self { antialiasing, ..self }
    }

    /// Returns whether renderer diagnostics are enabled.
    pub fn debug(self) -> (debug: bool)
        ensures
            debug == self@.debug,
    {
        self.debug
    }

    /// Returns this configuration with renderer diagnostics enabled or disabled.
    pub fn with_debug(self, debug: bool) -> (options: Self)
        ensures
            options@ == (OptionsView { debug, ..self@ }),
    {
        Self { debug, ..self }
    }

    /// Returns the policy for effect precision when high precision is unavailable.
    pub fn effect_quality_policy(self) -> (policy: EffectQualityPolicy)
        ensures
            policy == self@.effect_quality_policy,
    {
        self.effect_quality_policy
    }

    /// Returns this configuration with a different effect precision policy.
    pub fn with_effect_quality_policy(self, effect_quality_policy: EffectQualityPolicy) -> (options:
        Self)
        ensures
            options@ == (OptionsView { effect_quality_policy, ..self@ }),
    {
        Self { effect_quality_policy, ..self }
    }

    /// Returns the maximum retained idle effect-resource cache budget.
    pub fn resource_cache_budget(self) -> (budget: ResourceCacheBudget)
        ensures
            budget == self@.resource_cache_budget,
    {
        self.resource_cache_budget
    }

    /// Returns this configuration with a different idle effect-resource cache budget.
    pub fn with_resource_cache_budget(self, resource_cache_budget: ResourceCacheBudget) -> (options:
        Self)
        ensures
            options@ == (OptionsView { resource_cache_budget, ..self@ }),
    {
        Self { resource_cache_budget, ..self }
    }
}

impl Default for Options {
    fn default() -> (options: Self)
        ensures
            options@.antialiasing == Antialiasing::Area,
            !options@.debug,
            options@.effect_quality_policy == EffectQualityPolicy::RequireHighPrecision,
            options@.resource_cache_budget.spec_bytes() == DEFAULT_RESOURCE_CACHE_BYTES,
    {
        Self::new()
    }
}

/// An option that was set is read back, and setting it changes no other option.
pub proof fn law_options_are_read_back(
    options: Options,
    antialiasing: Antialiasing,
    debug: bool,
    policy: EffectQualityPolicy,
    budget: ResourceCacheBudget,
)
    ensures
        forall|next: Options, read: Antialiasing|
            #![trigger call_ensures(Options::with_antialiasing, (options, antialiasing), next), call_ensures(Options::antialiasing, (next,), read)]
            call_ensures(Options::with_antialiasing, (options, antialiasing), next)
                && call_ensures(Options::antialiasing, (next,), read) ==> read == antialiasing
                && next@.debug == options@.debug && next@.effect_quality_policy
                == options@.effect_quality_policy && next@.resource_cache_budget
                == options@.resource_cache_budget,
        forall|next: Options, read: bool|
            #![trigger call_ensures(Options::with_debug, (options, debug), next), call_ensures(Options::debug, (next,), read)]
            call_ensures(Options::with_debug, (options, debug), next) && call_ensures(
                Options::debug,
                (next,),
                read,
            ) ==> read == debug && next@.antialiasing == options@.antialiasing
                && next@.effect_quality_policy == options@.effect_quality_policy
                && next@.resource_cache_budget == options@.resource_cache_budget,
        forall|next: Options, read: EffectQualityPolicy|
            #![trigger call_ensures(Options::with_effect_quality_policy, (options, policy), next), call_ensures(Options::effect_quality_policy, (next,), read)]
            call_ensures(Options::with_effect_quality_policy, (options, policy), next)
                && call_ensures(Options::effect_quality_policy, (next,), read) ==> read == policy
                && next@.debug == options@.debug && next@.antialiasing == options@.antialiasing
                && next@.resource_cache_budget == options@.resource_cache_budget,
        forall|next: Options, read: ResourceCacheBudget|
            #![trigger call_ensures(Options::with_resource_cache_budget, (options, budget), next), call_ensures(Options::resource_cache_budget, (next,), read)]
            call_ensures(Options::with_resource_cache_budget, (options, budget), next)
                && call_ensures(Options::resource_cache_budget, (next,), read) ==> read == budget
                && next@.debug == options@.debug && next@.antialiasing == options@.antialiasing
                && next@.effect_quality_policy == options@.effect_quality_policy,
{
}

/// A budget is read back as it was given, and a disabled one retains nothing.
pub proof fn law_budgets_are_read_back(bytes: u64)
    ensures
        forall|budget: ResourceCacheBudget, read: u64|
            #![trigger call_ensures(ResourceCacheBudget::new, (bytes,), budget), call_ensures(ResourceCacheBudget::bytes, (budget,), read)]
            call_ensures(ResourceCacheBudget::new, (bytes,), budget) && call_ensures(
                ResourceCacheBudget::bytes,
                (budget,),
                read,
            ) ==> read == bytes,
        forall|budget: ResourceCacheBudget, read: u64|
            #![trigger call_ensures(ResourceCacheBudget::disabled, (), budget), call_ensures(ResourceCacheBudget::bytes, (budget,), read)]
            call_ensures(ResourceCacheBudget::disabled, (), budget) && call_ensures(
                ResourceCacheBudget::bytes,
                (budget,),
                read,
            ) ==> read == 0,
{
}

} // verus!
