//! Evaluating one request against the rule store.

use vstd::prelude::*;
use actix_web::http::header::HeaderMap;
use crate::config::webhook_views;
use crate::config::Config;
use crate::config::MatcherView;
use crate::config::MatchersStrategy;
use crate::config::Webhook;
use crate::config::WebhookView;
use crate::matchers::headers::header_entries;
use crate::matchers::headers::headers_outcome;
use crate::matchers::headers::headers_satisfied;
use crate::matchers::headers::match_headers;
use crate::matchers::json::json_satisfied;
use crate::matchers::json::match_json;
use crate::matchers::MatchError;

verus! {

/// The matcher is satisfied: by the request's headers or by its body.
pub open spec fn matcher_satisfied(
    matcher: MatcherView,
    body: Seq<char>,
    entries: Map<Seq<char>, Seq<u8>>,
) -> bool {
    headers_satisfied(entries, matcher) || json_satisfied(body, matcher)
}

/// The matcher cannot be evaluated: a header it asks for is present and is not text.
pub open spec fn matcher_fails(matcher: MatcherView, entries: Map<Seq<char>, Seq<u8>>) -> bool {
    headers_outcome(entries, matcher) is Err
}

/// How many of the matchers are satisfied.
pub open spec fn satisfied_count(
    matchers: Seq<MatcherView>,
    body: Seq<char>,
    entries: Map<Seq<char>, Seq<u8>>,
) -> nat
    decreases matchers.len(),
{
    if matchers.len() == 0 {
        0
    } else {
        satisfied_count(matchers.drop_last(), body, entries) + if matcher_satisfied(
            matchers.last(),
            body,
            entries,
        ) {
            1nat
        } else {
            0nat
        }
    }
}

/// The rule matches the request: under `All` every matcher is satisfied, which holds of
/// a rule without matchers; under `One` at least one is.
pub open spec fn rule_matches(
    rule: WebhookView,
    body: Seq<char>,
    entries: Map<Seq<char>, Seq<u8>>,
) -> bool {
    match rule.strategy() {
        MatchersStrategy::All => forall|j: int|
            0 <= j < rule.matchers.len() ==> matcher_satisfied(
                #[trigger] rule.matchers[j],
                body,
                entries,
            ),
        MatchersStrategy::One => exists|j: int|
            0 <= j < rule.matchers.len() && matcher_satisfied(
                #[trigger] rule.matchers[j],
                body,
                entries,
            ),
    }
}

/// None of the matchers can fail to be evaluated.
pub open spec fn matchers_evaluable(
    matchers: Seq<MatcherView>,
    entries: Map<Seq<char>, Seq<u8>>,
) -> bool {
    forall|j: int| 0 <= j < matchers.len() ==> !matcher_fails(#[trigger] matchers[j], entries)
}

/// Every matcher of every rule can be evaluated.
pub open spec fn rules_evaluable(rules: Seq<WebhookView>, entries: Map<Seq<char>, Seq<u8>>) -> bool {
    forall|i: int| 0 <= i < rules.len() ==> matchers_evaluable((#[trigger] rules[i]).matchers, entries)
}

/// The rules that match the request, in the order of the rule store.
pub open spec fn matching_rules(
    rules: Seq<WebhookView>,
    body: Seq<char>,
    entries: Map<Seq<char>, Seq<u8>>,
) -> Seq<WebhookView> {
    rules.filter(|rule: WebhookView| rule_matches(rule, body, entries))
}

/// What evaluating a request gives: the batch of matching rules, or an error where some
/// matcher of some rule cannot be evaluated.
pub open spec fn evaluate(
    rules: Seq<WebhookView>,
    body: Seq<char>,
    entries: Map<Seq<char>, Seq<u8>>,
) -> Result<Seq<WebhookView>, MatchError> {
    if rules_evaluable(rules, entries) {
        Ok(matching_rules(rules, body, entries))
    } else {
        Err(MatchError::UndecodableHeader)
    }
}

/// Counting agrees with the strategies: all matchers are satisfied exactly when the
/// count is their number, and one is exactly when the count is not zero.
pub proof fn lemma_satisfied_count(
    matchers: Seq<MatcherView>,
    body: Seq<char>,
    entries: Map<Seq<char>, Seq<u8>>,
)
    ensures
        satisfied_count(matchers, body, entries) <= matchers.len(),
        satisfied_count(matchers, body, entries) == matchers.len() <==> (forall|j: int|
            0 <= j < matchers.len() ==> matcher_satisfied(#[trigger] matchers[j], body, entries)),
        satisfied_count(matchers, body, entries) > 0 <==> (exists|j: int|
            0 <= j < matchers.len() && matcher_satisfied(#[trigger] matchers[j], body, entries)),
    decreases matchers.len(),
{
    if matchers.len() > 0 {
        let front = matchers.drop_last();
        lemma_satisfied_count(front, body, entries);
        assert forall|j: int| 0 <= j < front.len() implies front[j] == matchers[j] by {}
        if satisfied_count(matchers, body, entries) == matchers.len() {
            assert forall|j: int| 0 <= j < matchers.len() implies matcher_satisfied(
                #[trigger] matchers[j],
                body,
                entries,
            ) by {
                if j < front.len() {
                    assert(matcher_satisfied(front[j], body, entries));
                }
            }
        }
        if forall|j: int|
            0 <= j < matchers.len() ==> matcher_satisfied(#[trigger] matchers[j], body, entries) {
            assert forall|j: int| 0 <= j < front.len() implies matcher_satisfied(
                #[trigger] front[j],
                body,
                entries,
            ) by {
                assert(matcher_satisfied(matchers[j], body, entries));
            }
            assert(matcher_satisfied(matchers[matchers.len() - 1], body, entries));
        }
        if satisfied_count(matchers, body, entries) > 0 {
            if matcher_satisfied(matchers.last(), body, entries) {
                assert(matcher_satisfied(matchers[matchers.len() - 1], body, entries));
            } else {
                let j = choose|j: int|
                    0 <= j < front.len() && matcher_satisfied(#[trigger] front[j], body, entries);
                assert(matcher_satisfied(matchers[j], body, entries));
            }
        }
        if exists|j: int|
            0 <= j < matchers.len() && matcher_satisfied(#[trigger] matchers[j], body, entries) {
            let j = choose|j: int|
                0 <= j < matchers.len() && matcher_satisfied(#[trigger] matchers[j], body, entries);
            if j < front.len() {
                assert(matcher_satisfied(front[j], body, entries));
            }
        }
    }
}

/// A rule without matchers matches every request under `All` and none under `One`.
pub proof fn lemma_rule_without_matchers(
    rule: WebhookView,
    body: Seq<char>,
    entries: Map<Seq<char>, Seq<u8>>,
)
    requires
        rule.matchers.len() == 0,
    ensures
        rule_matches(rule, body, entries) == (rule.strategy() == MatchersStrategy::All),
{
}

/// Matching is a function of the rules, the body and the headers: a request that is
/// repeated against the same rule store gives the same batch, or fails again.
pub proof fn lemma_evaluation_is_deterministic(
    rules: Seq<WebhookView>,
    first_body: Seq<char>,
    first_entries: Map<Seq<char>, Seq<u8>>,
    second_body: Seq<char>,
    second_entries: Map<Seq<char>, Seq<u8>>,
)
    requires
        first_body =~= second_body,
        first_entries =~= second_entries,
    ensures
        evaluate(rules, first_body, first_entries) == evaluate(rules, second_body, second_entries),
{
}

/// The batch keeps the order of the rule store and holds each matching rule once: it
/// grows by at most the next rule when the rule store does.
pub proof fn lemma_matching_rules_step(
    rules: Seq<WebhookView>,
    body: Seq<char>,
    entries: Map<Seq<char>, Seq<u8>>,
)
    requires
        rules.len() > 0,
    ensures
        matching_rules(rules, body, entries) == if rule_matches(rules.last(), body, entries) {
            matching_rules(rules.drop_last(), body, entries).push(rules.last())
        } else {
            matching_rules(rules.drop_last(), body, entries)
        },
{
    reveal(Seq::filter);
}

/// Finds the rules of the store that the request matches, in the order of the store.
/// Fails, for the whole request, where a header that some matcher asks for is present
/// and is not text.
pub fn from_request_parts(config: &Config, body_as_string: &String, headers: &HeaderMap) -> (outcome:
    Result<Vec<Webhook>, MatchError>)
    ensures
        match outcome {
            Ok(batch) => evaluate(config@, body_as_string@, header_entries(*headers)) == Ok::<
                Seq<WebhookView>,
                MatchError,
            >(webhook_views(batch@)),
            Err(error) => evaluate(config@, body_as_string@, header_entries(*headers)) == Err::<
                Seq<WebhookView>,
                MatchError,
            >(error),
        },
{
    let ghost rules = config@;
    let ghost body = body_as_string@;
    let ghost entries = header_entries(*headers);
    let mut matching_webhooks: Vec<Webhook> = Vec::new();
    let mut i: usize = 0;
    assert(matching_rules(rules.take(0), body, entries) =~= Seq::<WebhookView>::empty()) by {
        reveal(Seq::filter);
    }
    while i < config.webhooks.len()
        invariant
            i <= config.webhooks.len(),
            rules == config@,
            body == body_as_string@,
            entries == header_entries(*headers),
            rules_evaluable(rules.take(i as int), entries),
            webhook_views(matching_webhooks@) == matching_rules(rules.take(i as int), body, entries),
        decreases config.webhooks.len() - i,
    {
        let webhook = &config.webhooks[i];
        assert(rules[i as int] == webhook@);
        let ghost matchers = webhook@.matchers;
        let strategy = match webhook.matchers_strategy {
            Some(strategy) => strategy,
            None => MatchersStrategy::default(),
        };
        let number_of_matchers = webhook.matchers.len();
        let mut number_matching: usize = 0;
        let mut j: usize = 0;
        while j < webhook.matchers.len()
            invariant
                j <= webhook.matchers.len(),
                i < config.webhooks.len(),
                rules == config@,
                rules[i as int] == webhook@,
                matchers == webhook@.matchers,
                body == body_as_string@,
                entries == header_entries(*headers),
                matchers_evaluable(matchers.take(j as int), entries),
                number_matching == satisfied_count(matchers.take(j as int), body, entries),
                number_matching <= j,
            decreases webhook.matchers.len() - j,
        {
            let matcher = &webhook.matchers[j];
            assert(matchers[j as int] == matcher@);
            let by_headers = match match_headers(headers, matcher) {
                Ok(satisfied) => satisfied,
                Err(error) => {
                    proof {
                        assert(matcher_fails(rules[i as int].matchers[j as int], entries));
                        assert(!matchers_evaluable(rules[i as int].matchers, entries));
                        assert(!rules_evaluable(rules, entries));
                    }
                    return Err(error);
                },
            };
            let satisfied = if by_headers {
                true
            } else {
                match match_json(body_as_string, matcher) {
                    Ok(satisfied) => satisfied,
                    Err(error) => {
                        return Err(error);
                    },
                }
            };
            proof {
                let next = matchers.take(j + 1);
                assert(next.drop_last() =~= matchers.take(j as int));
                assert(next.last() == matchers[j as int]);
                assert(satisfied == matcher_satisfied(matchers[j as int], body, entries));
                assert forall|k: int| 0 <= k < next.len() implies !matcher_fails(
                    #[trigger] next[k],
                    entries,
                ) by {
                    if k < j {
                        assert(next[k] == matchers.take(j as int)[k]);
                    }
                }
            }
            if satisfied {
                number_matching += 1;
            }
            j += 1;
        }
        let matched = match strategy {
            MatchersStrategy::All => number_of_matchers == number_matching,
            MatchersStrategy::One => number_matching > 0,
        };
        proof {
            assert(matchers.take(j as int) =~= matchers);
            lemma_satisfied_count(matchers, body, entries);
            assert(matched == rule_matches(rules[i as int], body, entries));
            let next = rules.take(i + 1);
            assert(next.drop_last() =~= rules.take(i as int));
            assert(next.last() == rules[i as int]);
            lemma_matching_rules_step(next, body, entries);
            assert forall|k: int| 0 <= k < next.len() implies matchers_evaluable(
                (#[trigger] next[k]).matchers,
                entries,
            ) by {
                if k < i {
                    assert(next[k] == rules.take(i as int)[k]);
                }
            }
        }
        if matched {
            let ghost before = matching_webhooks@;
            let copy = webhook.clone();
            matching_webhooks.push(copy);
            assert(webhook_views(matching_webhooks@) =~= webhook_views(before).push(webhook@));
        }
        i += 1;
    }
    proof {
        assert(rules.take(i as int) =~= rules);
    }
    Ok(matching_webhooks)
}

} // verus!
