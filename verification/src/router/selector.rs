//! Provider selection.
//!
//! A request names a model and may name a policy. The providers that offer
//! the model and meet the policy are the eligible ones. Of each provider name
//! the cheapest eligible entry is kept, and the entries kept are returned
//! cheapest first. Cost here is the routing cost, `output_rate + base_fee`;
//! among entries of equal cost the one configured first comes first.

use crate::config::{credential, ApiKey, PolicyRule, ProviderConfig};
use crate::error::Error;
use crate::text::{contains, lowercase, lowercase_of, occurs_in, str_eq, text_view};
use vstd::prelude::*;

verus! {

/// A provider selected for a request.
#[derive(Debug, Clone)]
pub struct SelectedProvider {
    pub name: String,
    pub url: String,
    pub api_key: Option<ApiKey>,
    pub input_rate: u64,
    pub output_rate: u64,
    pub base_fee: u64,
}

/// `s` holds what `p` says of the provider.
pub open spec fn selected_from(p: ProviderConfig, s: SelectedProvider) -> bool {
    &&& s.name@ == p.name@
    &&& s.url@ == p.url@
    &&& credential(s.api_key) == credential(p.api_key)
    &&& s.input_rate == p.input_rate
    &&& s.output_rate == p.output_rate
    &&& s.base_fee == p.base_fee
}

/// The cost by which candidates are ordered.
pub open spec fn routing_cost(p: ProviderConfig) -> int {
    p.output_rate + p.base_fee
}

/// Whether `model` is one of `models`.
pub open spec fn lists_model(models: Seq<String>, model: Seq<char>) -> bool {
    exists|k: int| 0 <= k < models.len() && #[trigger] models[k]@ == model
}

/// Whether a provider offers a model. A provider that lists no models offers
/// every model.
pub open spec fn supports(p: ProviderConfig, model: Seq<char>) -> bool {
    p.models@.len() == 0 || lists_model(p.models@, model)
}

/// Whether one of the rule's keywords occurs in the prompt, letter case
/// aside.
pub open spec fn keyword_hit(rule: PolicyRule, prompt: Seq<char>) -> bool {
    exists|k: int|
        0 <= k < rule.keywords@.len() && occurs_in(
            lowercase_of(#[trigger] rule.keywords@[k]@),
            lowercase_of(prompt),
        )
}

/// The index of the first rule from `from` on that is named `name`, or the
/// number of rules if there is none.
pub open spec fn first_named(rules: Seq<PolicyRule>, name: Seq<char>, from: int) -> int
    decreases rules.len() - from,
{
    if from < 0 || from >= rules.len() {
        rules.len() as int
    } else if rules[from].name@ == name {
        from
    } else {
        first_named(rules, name, from + 1)
    }
}

/// The index of the first rule from `from` on with a keyword in the prompt,
/// or the number of rules if there is none.
pub open spec fn first_hit(rules: Seq<PolicyRule>, prompt: Seq<char>, from: int) -> int
    decreases rules.len() - from,
{
    if from < 0 || from >= rules.len() {
        rules.len() as int
    } else if keyword_hit(rules[from], prompt) {
        from
    } else {
        first_hit(rules, prompt, from + 1)
    }
}

/// The policy of a request: the first rule with the name asked for; failing
/// that, the first rule with a keyword in the prompt; failing that, none.
pub open spec fn matching_policy(
    rules: Seq<PolicyRule>,
    policy_name: Option<Seq<char>>,
    prompt: Option<Seq<char>>,
) -> Option<int> {
    let named = match policy_name {
        Some(name) => first_named(rules, name, 0),
        None => rules.len() as int,
    };
    if named < rules.len() {
        Some(named)
    } else {
        match prompt {
            Some(text) => if first_hit(rules, text, 0) < rules.len() {
                Some(first_hit(rules, text, 0))
            } else {
                None
            },
            None => None,
        }
    }
}

/// The rule at an index, if there is an index.
pub open spec fn rule_at(rules: Seq<PolicyRule>, index: Option<int>) -> Option<PolicyRule> {
    match index {
        Some(i) => Some(rules[i]),
        None => None,
    }
}

/// Whether the policy rules the model out: it lists models, and this is not
/// one of them.
pub open spec fn forbids(policy: Option<PolicyRule>, model: Seq<char>) -> bool {
    match policy {
        Some(rule) => rule.allowed_models@.len() > 0 && !lists_model(rule.allowed_models@, model),
        None => false,
    }
}

/// Whether the provider's output rate is within the policy's ceiling.
pub open spec fn within_ceiling(p: ProviderConfig, policy: Option<PolicyRule>) -> bool {
    match policy {
        Some(rule) => match rule.max_sats_per_1k_output {
            Some(max) => p.output_rate <= max,
            None => true,
        },
        None => true,
    }
}

/// Whether provider `i` may serve the request.
pub open spec fn eligible(
    providers: Seq<ProviderConfig>,
    model: Seq<char>,
    policy: Option<PolicyRule>,
    i: int,
) -> bool {
    0 <= i < providers.len() && supports(providers[i], model) && within_ceiling(
        providers[i],
        policy,
    )
}

/// Provider `i` comes before provider `j`: it costs less, or it costs the
/// same and was configured first.
pub open spec fn cheaper(providers: Seq<ProviderConfig>, i: int, j: int) -> bool {
    routing_cost(providers[i]) < routing_cost(providers[j]) || (routing_cost(providers[i])
        == routing_cost(providers[j]) && i < j)
}

/// Provider `i` is eligible and comes before every other eligible entry of
/// the same name.
pub open spec fn best_of_name(
    providers: Seq<ProviderConfig>,
    model: Seq<char>,
    policy: Option<PolicyRule>,
    i: int,
) -> bool {
    &&& eligible(providers, model, policy, i)
    &&& forall|j: int|
        #![trigger providers[j]]
        eligible(providers, model, policy, j) && j != i && providers[j].name@
            == providers[i].name@ ==> cheaper(providers, i, j)
}

/// `picks` are the indices of the candidates for a request, in order: the
/// best entry of each name, cheapest first.
pub open spec fn is_selection(
    providers: Seq<ProviderConfig>,
    model: Seq<char>,
    policy: Option<PolicyRule>,
    picks: Seq<int>,
) -> bool {
    &&& forall|k: int|
        0 <= k < picks.len() ==> best_of_name(providers, model, policy, #[trigger] picks[k])
    &&& forall|a: int, b: int|
        0 <= a < b < picks.len() ==> cheaper(providers, #[trigger] picks[a], #[trigger] picks[b])
    &&& forall|i: int| best_of_name(providers, model, policy, i) ==> #[trigger] picks.contains(i)
}

/// `list` holds the providers at `picks`, in that order.
pub open spec fn copies(
    list: Seq<SelectedProvider>,
    providers: Seq<ProviderConfig>,
    picks: Seq<int>,
) -> bool {
    &&& list.len() == picks.len()
    &&& forall|k: int|
        0 <= k < picks.len() ==> 0 <= #[trigger] picks[k] < providers.len() && selected_from(
            providers[picks[k]],
            list[k],
        )
}

/// Why a request gets no candidates.
pub ghost enum Refusal {
    /// No provider offers the model.
    NoProviders,
    /// The policy rules the model out.
    ModelForbidden,
    /// No provider that offers the model is within the policy's ceiling.
    NoneWithinCeiling,
}

/// Whether a request is refused, and why.
pub open spec fn refusal(
    providers: Seq<ProviderConfig>,
    model: Seq<char>,
    policy: Option<PolicyRule>,
) -> Option<Refusal> {
    if forall|i: int| 0 <= i < providers.len() ==> !supports(#[trigger] providers[i], model) {
        Some(Refusal::NoProviders)
    } else if forbids(policy, model) {
        Some(Refusal::ModelForbidden)
    } else if forall|i: int| !eligible(providers, model, policy, i) {
        Some(Refusal::NoneWithinCeiling)
    } else {
        None
    }
}

/// The message for a model that a policy rules out.
pub open spec fn forbidden_message(model: Seq<char>, policy: Seq<char>) -> Seq<char> {
    "Model '"@ + model + "' not allowed by policy '"@ + policy + "'"@
}

/// Whether `e` is the error for the refusal `why`.
pub open spec fn reports(e: Error, why: Refusal, model: Seq<char>, policy: Option<PolicyRule>) -> bool {
    match why {
        Refusal::NoProviders => e matches Error::NoProviders { model: m } && m@ == model,
        Refusal::ModelForbidden => e matches Error::BadRequest(text) && policy is Some && text@
            == forbidden_message(model, policy.unwrap().name@),
        Refusal::NoneWithinCeiling => e is NoPolicyMatch,
    }
}

/// The name of provider `i`.
pub open spec fn name_at(providers: Seq<ProviderConfig>, i: int) -> Seq<char> {
    providers[i].name@
}

/// The routing cost of provider `i`.
pub open spec fn cost_at(providers: Seq<ProviderConfig>, i: int) -> int {
    routing_cost(providers[i])
}

/// A selection is ordered by routing cost, holds every name once, holds of
/// each name the cheapest eligible entry, and leaves no eligible name out.
pub proof fn lemma_selection_is_sorted_and_deduplicated(
    providers: Seq<ProviderConfig>,
    model: Seq<char>,
    policy: Option<PolicyRule>,
    picks: Seq<int>,
)
    requires
        is_selection(providers, model, policy, picks),
    ensures
        forall|a: int, b: int|
            0 <= a < b < picks.len() ==> cost_at(providers, #[trigger] picks[a]) <= cost_at(
                providers,
                #[trigger] picks[b],
            ),
        forall|a: int, b: int|
            0 <= a < b < picks.len() ==> name_at(providers, #[trigger] picks[a]) != name_at(
                providers,
                #[trigger] picks[b],
            ),
        forall|k: int, j: int|
            0 <= k < picks.len() && eligible(providers, model, policy, j) && name_at(providers, j)
                == name_at(providers, #[trigger] picks[k]) ==> cost_at(providers, picks[k])
                <= #[trigger] cost_at(providers, j),
        forall|j: int|
            eligible(providers, model, policy, j) ==> exists|k: int|
                0 <= k < picks.len() && name_at(providers, #[trigger] picks[k]) == name_at(
                    providers,
                    j,
                ),
{
    assert forall|a: int, b: int| 0 <= a < b < picks.len() implies cost_at(
        providers,
        #[trigger] picks[a],
    ) <= cost_at(providers, #[trigger] picks[b]) by {
        assert(cheaper(providers, picks[a], picks[b]));
    }
    assert forall|a: int, b: int| 0 <= a < b < picks.len() implies name_at(
        providers,
        #[trigger] picks[a],
    ) != name_at(providers, #[trigger] picks[b]) by {
        lemma_names_differ(providers, model, policy, picks, a, b);
    }
    assert forall|k: int, j: int|
        0 <= k < picks.len() && eligible(providers, model, policy, j) && name_at(providers, j)
            == name_at(providers, #[trigger] picks[k]) implies cost_at(providers, picks[k])
        <= #[trigger] cost_at(providers, j) by {
        assert(best_of_name(providers, model, policy, picks[k]));
        if j != picks[k] {
            assert(providers[j].name@ == providers[picks[k]].name@);
            assert(cheaper(providers, picks[k], j));
        }
    }
    assert forall|j: int| eligible(providers, model, policy, j) implies exists|k: int|
        0 <= k < picks.len() && name_at(providers, #[trigger] picks[k]) == name_at(
            providers,
            j,
        ) by {
        let b = lemma_best_exists(providers, model, policy, j);
        assert(picks.contains(b));
        let k = choose|k: int| 0 <= k < picks.len() && picks[k] == b;
        assert(name_at(providers, picks[k]) == name_at(providers, j));
    }
}

/// Two entries of a selection have different names.
proof fn lemma_names_differ(
    providers: Seq<ProviderConfig>,
    model: Seq<char>,
    policy: Option<PolicyRule>,
    picks: Seq<int>,
    a: int,
    b: int,
)
    requires
        is_selection(providers, model, policy, picks),
        0 <= a < b < picks.len(),
    ensures
        providers[picks[a]].name@ != providers[picks[b]].name@,
{
    let i = picks[a];
    let j = picks[b];
    assert(cheaper(providers, i, j));
    assert(best_of_name(providers, model, policy, i));
    assert(best_of_name(providers, model, policy, j));
    if providers[i].name@ == providers[j].name@ {
        assert(eligible(providers, model, policy, i));
        assert(providers[i].name@ == providers[j].name@);
        assert(cheaper(providers, j, i));
    }
}

/// Every eligible entry has a best entry of its name.
pub proof fn lemma_best_exists(
    providers: Seq<ProviderConfig>,
    model: Seq<char>,
    policy: Option<PolicyRule>,
    j: int,
) -> (b: int)
    requires
        eligible(providers, model, policy, j),
    ensures
        best_of_name(providers, model, policy, b),
        providers[b].name@ == providers[j].name@,
{
    lemma_best_among(providers, model, policy, j, providers.len() as int)
}

/// The best entry among those below `bound` that are eligible and named like
/// `j`, together with `j` itself.
proof fn lemma_best_among(
    providers: Seq<ProviderConfig>,
    model: Seq<char>,
    policy: Option<PolicyRule>,
    j: int,
    bound: int,
) -> (b: int)
    requires
        eligible(providers, model, policy, j),
        0 <= bound <= providers.len(),
    ensures
        eligible(providers, model, policy, b),
        providers[b].name@ == providers[j].name@,
        b == j || cheaper(providers, b, j),
        forall|i: int|
            #![trigger providers[i]]
            0 <= i < bound && eligible(providers, model, policy, i) && i != b && providers[i].name@
                == providers[j].name@ ==> cheaper(providers, b, i),
        bound == providers.len() ==> best_of_name(providers, model, policy, b),
    decreases bound,
{
    if bound == 0 {
        j
    } else {
        let prev = lemma_best_among(providers, model, policy, j, bound - 1);
        let i = bound - 1;
        let b = if eligible(providers, model, policy, i) && providers[i].name@
            == providers[j].name@ && cheaper(providers, i, prev) {
            i
        } else {
            prev
        };
        assert(prev == j || cheaper(providers, prev, j));
        assert(b == j || cheaper(providers, b, j));
        assert forall|x: int|
            #![trigger providers[x]]
            0 <= x < bound && eligible(providers, model, policy, x) && x != b && providers[x].name@
                == providers[j].name@ implies cheaper(providers, b, x) by {
            if x < bound - 1 {
                if x != prev {
                    assert(cheaper(providers, prev, x));
                }
            }
        }
        if bound == providers.len() {
            assert forall|x: int|
                #![trigger providers[x]]
                eligible(providers, model, policy, x) && x != b && providers[x].name@
                    == providers[b].name@ implies cheaper(providers, b, x) by {
                assert(0 <= x < bound);
            }
        }
        b
    }
}

/// The picks are in order: each comes before the next.
pub open spec fn sorted_picks(providers: Seq<ProviderConfig>, picks: Seq<int>) -> bool {
    forall|a: int, b: int|
        0 <= a < b < picks.len() ==> cheaper(providers, #[trigger] picks[a], #[trigger] picks[b])
}

/// Two ordered sequences with the same elements are equal.
proof fn lemma_sorted_same_elements(providers: Seq<ProviderConfig>, first: Seq<int>, second: Seq<int>)
    requires
        sorted_picks(providers, first),
        sorted_picks(providers, second),
        forall|i: int| first.contains(i) <==> second.contains(i),
    ensures
        first == second,
    decreases first.len(),
{
    if first.len() == 0 {
        if second.len() > 0 {
            assert(second.contains(second[0]));
        }
        assert(first =~= second);
    } else {
        if second.len() == 0 {
            assert(first.contains(first[0]));
        }
        let x = first.last();
        assert(first.contains(x));
        let k = choose|k: int| 0 <= k < second.len() && second[k] == x;
        if k < second.len() - 1 {
            let y = second.last();
            assert(second.contains(y));
            let m = choose|m: int| 0 <= m < first.len() && first[m] == y;
            assert(cheaper(providers, second[k], second[second.len() - 1]));
            if m < first.len() - 1 {
                assert(cheaper(providers, first[m], first[first.len() - 1]));
            }
        }
        assert(second.last() == x);
        let a = first.drop_last();
        let b = second.drop_last();
        assert forall|i: int| a.contains(i) <==> b.contains(i) by {
            if a.contains(i) {
                let p = choose|p: int| 0 <= p < a.len() && a[p] == i;
                assert(first[p] == i);
                assert(cheaper(providers, first[p], first[first.len() - 1]));
                assert(first.contains(i));
                let m = choose|m: int| 0 <= m < second.len() && second[m] == i;
                assert(b[m] == i);
            }
            if b.contains(i) {
                let p = choose|p: int| 0 <= p < b.len() && b[p] == i;
                assert(second[p] == i);
                assert(cheaper(providers, second[p], second[second.len() - 1]));
                assert(second.contains(i));
                let m = choose|m: int| 0 <= m < first.len() && first[m] == i;
                assert(a[m] == i);
            }
        }
        assert(sorted_picks(providers, a)) by {
            assert forall|p: int, q: int| 0 <= p < q < a.len() implies cheaper(
                providers,
                #[trigger] a[p],
                #[trigger] a[q],
            ) by {
                assert(cheaper(providers, first[p], first[q]));
            }
        }
        assert(sorted_picks(providers, b)) by {
            assert forall|p: int, q: int| 0 <= p < q < b.len() implies cheaper(
                providers,
                #[trigger] b[p],
                #[trigger] b[q],
            ) by {
                assert(cheaper(providers, second[p], second[q]));
            }
        }
        lemma_sorted_same_elements(providers, a, b);
        assert(first =~= a.push(x));
        assert(second =~= b.push(x));
    }
}

/// There is only one selection: the candidates of a request are determined.
pub proof fn lemma_selection_is_unique(
    providers: Seq<ProviderConfig>,
    model: Seq<char>,
    policy: Option<PolicyRule>,
    first: Seq<int>,
    second: Seq<int>,
)
    requires
        is_selection(providers, model, policy, first),
        is_selection(providers, model, policy, second),
    ensures
        first == second,
{
    assert forall|i: int| first.contains(i) <==> second.contains(i) by {
        if first.contains(i) {
            let k = choose|k: int| 0 <= k < first.len() && first[k] == i;
            assert(best_of_name(providers, model, policy, first[k]));
        }
        if second.contains(i) {
            let k = choose|k: int| 0 <= k < second.len() && second[k] == i;
            assert(best_of_name(providers, model, policy, second[k]));
        }
    }
    lemma_sorted_same_elements(providers, first, second);
}

/// Router for selecting providers.
#[derive(Debug, Clone)]
pub struct Router {
    providers: Vec<ProviderConfig>,
    policy_rules: Vec<PolicyRule>,
    default_strategy: String,
}

/// Whether a provider offers a model.
pub fn provider_supports(p: &ProviderConfig, model: &str) -> (r: bool)
    ensures
        r == supports(*p, model@),
{
    p.models.len() == 0 || model_listed(&p.models, model)
}

/// Whether `model` is one of `models`.
pub fn model_listed(models: &Vec<String>, model: &str) -> (r: bool)
    ensures
        r == lists_model(models@, model@),
{
    let mut k: usize = 0;
    while k < models.len()
        invariant
            k <= models@.len(),
            forall|j: int| 0 <= j < k ==> models@[j]@ != model@,
        decreases models@.len() - k,
    {
        if str_eq(models[k].as_str(), model) {
            return true;
        }
        k += 1;
    }
    false
}

/// Whether one of the rule's keywords occurs in the prompt, which is given
/// in lower case.
fn rule_hits(rule: &PolicyRule, prompt: Ghost<Seq<char>>, prompt_lower: &str) -> (r: bool)
    requires
        prompt_lower@ == lowercase_of(prompt@),
    ensures
        r == keyword_hit(*rule, prompt@),
{
    let mut k: usize = 0;
    while k < rule.keywords.len()
        invariant
            k <= rule.keywords@.len(),
            prompt_lower@ == lowercase_of(prompt@),
            forall|j: int|
                0 <= j < k ==> !occurs_in(
                    lowercase_of(#[trigger] rule.keywords@[j]@),
                    lowercase_of(prompt@),
                ),
        decreases rule.keywords@.len() - k,
    {
        let keyword = lowercase(rule.keywords[k].as_str());
        if contains(prompt_lower, keyword.as_str()) {
            return true;
        }
        k += 1;
    }
    false
}

/// The routing cost of a provider.
pub fn provider_cost(p: &ProviderConfig) -> (r: u128)
    ensures
        r == routing_cost(*p),
{
    p.output_rate as u128 + p.base_fee as u128
}

impl SelectedProvider {
    /// Copies what the configuration says of a provider.
    pub fn from_config(config: &ProviderConfig) -> (r: Self)
        ensures
            selected_from(*config, r),
    {
        Self {
            name: config.name.clone(),
            url: config.url.clone(),
            api_key: match &config.api_key {
                Some(key) => Some(key.clone()),
                None => None,
            },
            input_rate: config.input_rate,
            output_rate: config.output_rate,
            base_fee: config.base_fee,
        }
    }
}

impl Router {
    /// The configured providers.
    pub closed spec fn provider_list(&self) -> Seq<ProviderConfig> {
        self.providers@
    }

    /// The configured policy rules.
    pub closed spec fn rule_list(&self) -> Seq<PolicyRule> {
        self.policy_rules@
    }

    /// The configured default strategy.
    pub closed spec fn strategy(&self) -> Seq<char> {
        self.default_strategy@
    }

    /// The policy that applies to a request.
    pub open spec fn policy_for(
        &self,
        policy_name: Option<Seq<char>>,
        prompt: Option<Seq<char>>,
    ) -> Option<PolicyRule> {
        rule_at(self.rule_list(), matching_policy(self.rule_list(), policy_name, prompt))
    }

    /// A router over the given providers and policy rules.
    pub fn new(
        providers: Vec<ProviderConfig>,
        policy_rules: Vec<PolicyRule>,
        default_strategy: String,
    ) -> (r: Self)
        ensures
            r.provider_list() == providers@,
            r.rule_list() == policy_rules@,
            r.strategy() == default_strategy@,
    {
        Self { providers, policy_rules, default_strategy }
    }

    /// All configured providers.
    pub fn providers(&self) -> (r: &[ProviderConfig])
        ensures
            r@ == self.provider_list(),
    {
        self.providers.as_slice()
    }

    /// The cheapest provider for a request: the first of its candidates.
    pub fn select(&self, model: &str, policy_name: Option<&str>, prompt: Option<&str>) -> (r:
        Result<SelectedProvider, Error>)
        ensures
            ({
                let policy = self.policy_for(text_view(policy_name), text_view(prompt));
                let why = refusal(self.provider_list(), model@, policy);
                match r {
                    Ok(s) => why is None && exists|picks: Seq<int>|
                        #![trigger is_selection(self.provider_list(), model@, policy, picks)]
                        is_selection(self.provider_list(), model@, policy, picks) && picks.len()
                            > 0 && 0 <= picks[0] < self.provider_list().len() && selected_from(
                            self.provider_list()[picks[0]],
                            s,
                        ),
                    Err(e) => why is Some && reports(e, why.unwrap(), model@, policy),
                }
            }),
    {
        match self.select_candidates(model, policy_name, prompt) {
            Ok(list) => {
                let mut list = list;
                let ghost policy = self.policy_for(text_view(policy_name), text_view(prompt));
                let ghost picks = choose|picks: Seq<int>|
                    is_selection(self.provider_list(), model@, policy, picks) && copies(
                        list@,
                        self.provider_list(),
                        picks,
                    );
                assert(0 <= picks[0] < self.provider_list().len());
                let first = list.remove(0);
                Ok(first)
            },
            Err(e) => Err(e),
        }
    }

    /// The candidates for a request, cheapest first.
    ///
    /// The request is refused when no provider offers the model, when its
    /// policy rules the model out, or when no provider that offers the model
    /// is within the policy's ceiling. Otherwise there is at least one
    /// candidate.
    pub fn select_candidates(
        &self,
        model: &str,
        policy_name: Option<&str>,
        prompt: Option<&str>,
    ) -> (r: Result<Vec<SelectedProvider>, Error>)
        ensures
            ({
                let policy = self.policy_for(text_view(policy_name), text_view(prompt));
                let why = refusal(self.provider_list(), model@, policy);
                match r {
                    Ok(list) => why is None && list@.len() > 0 && exists|picks: Seq<int>|
                        #![trigger is_selection(self.provider_list(), model@, policy, picks)]
                        is_selection(self.provider_list(), model@, policy, picks) && copies(
                            list@,
                            self.provider_list(),
                            picks,
                        ),
                    Err(e) => why is Some && reports(e, why.unwrap(), model@, policy),
                }
            }),
    {
        let ghost providers = self.providers@;
        let ghost policy = self.policy_for(text_view(policy_name), text_view(prompt));
        let found = self.find_policy(policy_name, prompt);
        let n = self.providers.len();

        let mut any_supported = false;
        let mut i: usize = 0;
        while i < n
            invariant
                i <= n,
                n == self.providers@.len(),
                any_supported <==> exists|j: int|
                    0 <= j < i && supports(#[trigger] self.providers@[j], model@),
            decreases n - i,
        {
            if provider_supports(&self.providers[i], model) {
                any_supported = true;
            }
            i += 1;
        }
        if !any_supported {
            return Err(Error::NoProviders { model: String::from_str(model) });
        }
        let mut ceiling: Option<u64> = None;
        match found {
            Some(index) => {
                let rule = &self.policy_rules[index];
                if rule.allowed_models.len() > 0 && !model_listed(&rule.allowed_models, model) {
                    let mut text = String::from_str("Model '");
                    text.append(model);
                    text.append("' not allowed by policy '");
                    text.append(rule.name.as_str());
                    text.append("'");
                    return Err(Error::BadRequest(text));
                }
                ceiling = rule.max_sats_per_1k_output;
            },
            None => {},
        }
        assert(!forbids(policy, model@));
        assert(forall|p: ProviderConfig|
            within_ceiling(p, policy) == match ceiling {
                Some(max) => p.output_rate <= max,
                None => true,
            });

        let mut flags: Vec<bool> = Vec::new();
        let mut any_eligible = false;
        let mut i: usize = 0;
        while i < n
            invariant
                i <= n,
                n == self.providers@.len(),
                providers == self.providers@,
                flags@.len() == i,
                forall|p: ProviderConfig|
                    within_ceiling(p, policy) == match ceiling {
                        Some(max) => p.output_rate <= max,
                        None => true,
                    },
                forall|j: int|
                    0 <= j < i ==> #[trigger] flags@[j] == eligible(providers, model@, policy, j),
                any_eligible <==> exists|j: int|
                    0 <= j < i && #[trigger] eligible(providers, model@, policy, j),
            decreases n - i,
        {
            let p = &self.providers[i];
            let within = match ceiling {
                Some(max) => p.output_rate <= max,
                None => true,
            };
            let flag = provider_supports(p, model) && within;
            assert(flag == eligible(providers, model@, policy, i as int));
            if flag {
                any_eligible = true;
            }
            flags.push(flag);
            i += 1;
        }
        if !any_eligible {
            return Err(Error::NoPolicyMatch);
        }
        let picks = self.pick_best(&flags, Ghost(model@), Ghost(policy));
        let mut list: Vec<SelectedProvider> = Vec::new();
        let mut k: usize = 0;
        while k < picks.len()
            invariant
                k <= picks@.len(),
                list@.len() == k,
                providers == self.providers@,
                forall|j: int| 0 <= j < picks@.len() ==> 0 <= #[trigger] picks@[j] < providers.len(),
                forall|j: int|
                    0 <= j < k ==> selected_from(providers[picks@[j] as int], #[trigger] list@[j]),
            decreases picks@.len() - k,
        {
            list.push(SelectedProvider::from_config(&self.providers[picks[k]]));
            k += 1;
        }
        proof {
            let chosen = picks@.map_values(|x: usize| x as int);
            assert(is_selection(providers, model@, policy, chosen));
            assert(copies(list@, providers, chosen));
            let j = choose|j: int| 0 <= j < n && eligible(providers, model@, policy, j);
            let b = lemma_best_exists(providers, model@, policy, j);
            assert(chosen.contains(b));
        }
        Ok(list)
    }

    /// The policy of a request: the first rule with the name asked for;
    /// failing that, the first rule with a keyword in the prompt.
    pub fn find_policy(&self, policy_name: Option<&str>, prompt: Option<&str>) -> (r: Option<usize>)
        ensures
            match r {
                Some(i) => matching_policy(
                    self.rule_list(),
                    text_view(policy_name),
                    text_view(prompt),
                ) == Some(i as int) && i < self.rule_list().len(),
                None => matching_policy(self.rule_list(), text_view(policy_name), text_view(prompt))
                    is None,
            },
    {
        let n = self.policy_rules.len();
        match policy_name {
            Some(name) => {
                let mut i: usize = 0;
                while i < n
                    invariant
                        i <= n,
                        n == self.policy_rules@.len(),
                        policy_name == Some(name),
                        first_named(self.policy_rules@, name@, 0) == first_named(
                            self.policy_rules@,
                            name@,
                            i as int,
                        ),
                    decreases n - i,
                {
                    if str_eq(self.policy_rules[i].name.as_str(), name) {
                        return Some(i);
                    }
                    i += 1;
                }
            },
            None => {},
        }
        match prompt {
            Some(text) => {
                let lower = lowercase(text);
                let mut i: usize = 0;
                while i < n
                    invariant
                        i <= n,
                        n == self.policy_rules@.len(),
                        lower@ == lowercase_of(text@),
                        prompt == Some(text),
                        match policy_name {
                            Some(name) => first_named(self.policy_rules@, name@, 0) >= n,
                            None => true,
                        },
                        first_hit(self.policy_rules@, text@, 0) == first_hit(
                            self.policy_rules@,
                            text@,
                            i as int,
                        ),
                    decreases n - i,
                {
                    if rule_hits(&self.policy_rules[i], Ghost(text@), lower.as_str()) {
                        return Some(i);
                    }
                    i += 1;
                }
                None
            },
            None => None,
        }
    }

    /// Whether an entry that is eligible and named like provider `i` comes
    /// before it.
    fn is_beaten(
        &self,
        flags: &Vec<bool>,
        i: usize,
        Ghost(model): Ghost<Seq<char>>,
        Ghost(policy): Ghost<Option<PolicyRule>>,
    ) -> (r: bool)
        requires
            i < self.providers@.len(),
            flags@.len() == self.providers@.len(),
            forall|j: int|
                0 <= j < flags@.len() ==> #[trigger] flags@[j] == eligible(
                    self.providers@,
                    model,
                    policy,
                    j,
                ),
        ensures
            r == exists|j: int|
                #![trigger self.providers@[j]]
                eligible(self.providers@, model, policy, j) && j != i && self.providers@[j].name@
                    == self.providers@[i as int].name@ && !cheaper(self.providers@, i as int, j),
    {
        let n = self.providers.len();
        let cost = provider_cost(&self.providers[i]);
        let mut j: usize = 0;
        while j < n
            invariant
                j <= n,
                n == self.providers@.len(),
                i < n,
                flags@.len() == n,
                cost == routing_cost(self.providers@[i as int]),
                forall|x: int|
                    0 <= x < flags@.len() ==> #[trigger] flags@[x] == eligible(
                        self.providers@,
                        model,
                        policy,
                        x,
                    ),
                forall|x: int|
                    #![trigger self.providers@[x]]
                    0 <= x < j ==> !(eligible(self.providers@, model, policy, x) && x != i
                        && self.providers@[x].name@ == self.providers@[i as int].name@ && !cheaper(
                        self.providers@,
                        i as int,
                        x,
                    )),
            decreases n - j,
        {
            if j != i && flags[j] && str_eq(
                self.providers[j].name.as_str(),
                self.providers[i].name.as_str(),
            ) {
                let other = provider_cost(&self.providers[j]);
                if !(cost < other || (cost == other && i < j)) {
                    return true;
                }
            }
            j += 1;
        }
        false
    }

    /// The best entry of each name among the eligible ones, cheapest first.
    fn pick_best(
        &self,
        flags: &Vec<bool>,
        Ghost(model): Ghost<Seq<char>>,
        Ghost(policy): Ghost<Option<PolicyRule>>,
    ) -> (picks: Vec<usize>)
        requires
            flags@.len() == self.providers@.len(),
            forall|j: int|
                0 <= j < flags@.len() ==> #[trigger] flags@[j] == eligible(
                    self.providers@,
                    model,
                    policy,
                    j,
                ),
        ensures
            is_selection(self.providers@, model, policy, picks@.map_values(|x: usize| x as int)),
            forall|k: int| 0 <= k < picks@.len() ==> 0 <= #[trigger] picks@[k] < self.providers@.len(),
    {
        let ghost providers = self.providers@;
        let n = self.providers.len();
        let mut picks: Vec<usize> = Vec::new();
        let mut i: usize = 0;
        while i < n
            invariant
                i <= n,
                n == self.providers@.len(),
                providers == self.providers@,
                flags@.len() == n,
                forall|j: int|
                    0 <= j < flags@.len() ==> #[trigger] flags@[j] == eligible(
                        providers,
                        model,
                        policy,
                        j,
                    ),
                forall|k: int|
                    0 <= k < picks@.len() ==> 0 <= #[trigger] picks@[k] < i && best_of_name(
                        providers,
                        model,
                        policy,
                        picks@[k] as int,
                    ),
                forall|a: int, b: int|
                    0 <= a < b < picks@.len() ==> cheaper(
                        providers,
                        #[trigger] picks@[a] as int,
                        #[trigger] picks@[b] as int,
                    ),
                forall|x: int|
                    0 <= x < i && best_of_name(providers, model, policy, x) ==> exists|k: int|
                        0 <= k < picks@.len() && #[trigger] picks@[k] == x,
            decreases n - i,
        {
            if flags[i] && !self.is_beaten(flags, i, Ghost(model), Ghost(policy)) {
                assert(best_of_name(providers, model, policy, i as int));
                let cost = provider_cost(&self.providers[i]);
                let mut pos: usize = 0;
                while pos < picks.len() && provider_cost(&self.providers[picks[pos]]) <= cost
                    invariant
                        pos <= picks@.len(),
                        i < n,
                        n == self.providers@.len(),
                        providers == self.providers@,
                        cost == routing_cost(providers[i as int]),
                        forall|k: int| 0 <= k < picks@.len() ==> 0 <= #[trigger] picks@[k] < i,
                        forall|k: int|
                            0 <= k < pos ==> cheaper(providers, #[trigger] picks@[k] as int, i as int),
                    decreases picks@.len() - pos,
                {
                    pos += 1;
                }
                let ghost before = picks@;
                picks.insert(pos, i);
                proof {
                    assert forall|a: int, b: int| 0 <= a < b < picks@.len() implies cheaper(
                        providers,
                        #[trigger] picks@[a] as int,
                        #[trigger] picks@[b] as int,
                    ) by {
                        if a == pos {
                            assert(picks@[b] == before[b - 1]);
                            assert(cheaper(providers, i as int, before[pos as int] as int));
                            if b - 1 > pos {
                                assert(cheaper(
                                    providers,
                                    before[pos as int] as int,
                                    before[b - 1] as int,
                                ));
                            }
                        } else if b == pos {
                            assert(picks@[a] == before[a]);
                        } else if a < pos && b > pos {
                            assert(picks@[a] == before[a]);
                            assert(picks@[b] == before[b - 1]);
                        } else if a < pos {
                            assert(picks@[a] == before[a]);
                            assert(picks@[b] == before[b]);
                        } else {
                            assert(picks@[a] == before[a - 1]);
                            assert(picks@[b] == before[b - 1]);
                        }
                    }
                    assert forall|x: int|
                        0 <= x < i + 1 && best_of_name(
                            providers,
                            model,
                            policy,
                            x,
                        ) implies exists|k: int|
                        0 <= k < picks@.len() && #[trigger] picks@[k] == x by {
                        if x == i {
                            assert(picks@[pos as int] == x);
                        } else {
                            let k0 = choose|k: int| 0 <= k < before.len() && #[trigger] before[k] == x;
                            if k0 < pos {
                                assert(picks@[k0] == x);
                            } else {
                                assert(picks@[k0 + 1] == x);
                            }
                        }
                    }
                    assert forall|k: int| 0 <= k < picks@.len() implies 0 <= #[trigger] picks@[k] < i
                        + 1 && best_of_name(providers, model, policy, picks@[k] as int) by {
                        if k < pos {
                            assert(picks@[k] == before[k]);
                        } else if k > pos {
                            assert(picks@[k] == before[k - 1]);
                        }
                    }
                }
            }
            i += 1;
        }
        proof {
            let chosen = picks@.map_values(|x: usize| x as int);
            assert forall|x: int| best_of_name(providers, model, policy, x) implies #[trigger] chosen.contains(
                x,
            ) by {
                let k = choose|k: int| 0 <= k < picks@.len() && #[trigger] picks@[k] == x;
                assert(chosen[k] == x);
            }
        }
        picks
    }
}

/// The cost of a completed request, in thousandths of the unit that rates
/// and fees are given in. Rates are per 1000 tokens and the fee is per
/// request, so the cost itself is
/// `(input_tokens * input_rate + output_tokens * output_rate) / 1000 + base_fee`;
/// in thousandths it is a whole number.
pub open spec fn cost_in_thousandths(
    input_tokens: u32,
    output_tokens: u32,
    input_rate: u64,
    output_rate: u64,
    base_fee: u64,
) -> int {
    input_tokens * input_rate + output_tokens * output_rate + 1000 * base_fee
}

/// Computes the cost of a completed request, exactly, in thousandths.
pub fn actual_cost_msats(
    input_tokens: u32,
    output_tokens: u32,
    input_rate: u64,
    output_rate: u64,
    base_fee: u64,
) -> (r: u128)
    ensures
        r == cost_in_thousandths(input_tokens, output_tokens, input_rate, output_rate, base_fee),
{
    assert(input_tokens * input_rate <= 0xffff_ffff * 0xffff_ffff_ffff_ffff) by (nonlinear_arith)
        requires
            input_tokens <= 0xffff_ffff,
            input_rate <= 0xffff_ffff_ffff_ffff,
    ;
    assert(output_tokens * output_rate <= 0xffff_ffff * 0xffff_ffff_ffff_ffff)
        by (nonlinear_arith)
        requires
            output_tokens <= 0xffff_ffff,
            output_rate <= 0xffff_ffff_ffff_ffff,
    ;
    let input_cost: u128 = (input_tokens as u128) * (input_rate as u128);
    let output_cost: u128 = (output_tokens as u128) * (output_rate as u128);
    let fee: u128 = 1000u128 * (base_fee as u128);
    input_cost + output_cost + fee
}

} // verus!
