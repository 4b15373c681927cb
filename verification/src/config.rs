//! The rule store: webhook rules, their matchers and the strategy that combines them.

use vstd::prelude::*;
use vstd::string::StringExecFns;
use crate::matchers::json::clone_document;

verus! {

/// How many of a rule's matchers have to be satisfied for the rule to match.
#[derive(Debug, Clone, Copy, PartialEq, Eq, Structural)]
pub enum MatchersStrategy {
    /// Every matcher has to be satisfied.
    All,
    /// One satisfied matcher is enough.
    One,
}

impl Default for MatchersStrategy {
    fn default() -> (strategy: Self)
        ensures
            strategy == MatchersStrategy::All,
    {
        MatchersStrategy::All
    }
}

impl MatchersStrategy {
    /// The word that stands for the strategy in a configuration file.
    pub open spec fn keyword(self) -> Seq<char> {
        match self {
            MatchersStrategy::All => "all"@,
            MatchersStrategy::One => "one"@,
        }
    }

    /// Renders the strategy as its configuration keyword.
    pub fn to_string(&self) -> (text: String)
        ensures
            text@ == self.keyword(),
    {
        match self {
            MatchersStrategy::All => "all".to_owned(),
            MatchersStrategy::One => "one".to_owned(),
        }
    }
}

/// No header name occurs in two of the pairs.
pub open spec fn names_distinct(pairs: Seq<(Seq<char>, Seq<char>)>) -> bool {
    forall|i: int, j: int| 0 <= i < j < pairs.len() ==> pairs[i].0 != pairs[j].0
}

/// `name` is the name of one of the pairs.
pub open spec fn names_hold(pairs: Seq<(Seq<char>, Seq<char>)>, name: Seq<char>) -> bool {
    exists|i: int| 0 <= i < pairs.len() && #[trigger] pairs[i].0 == name
}

/// The mapping from header name to expected value that a list of pairs stands for.
pub open spec fn pairs_to_map(pairs: Seq<(Seq<char>, Seq<char>)>) -> Map<Seq<char>, Seq<char>> {
    Map::new(
        |name: Seq<char>| names_hold(pairs, name),
        |name: Seq<char>| pairs[choose|i: int| 0 <= i < pairs.len() && #[trigger] pairs[i].0 == name].1,
    )
}

/// With distinct names, every pair is an entry of the mapping and the mapping has no others.
pub proof fn lemma_pairs_to_map(pairs: Seq<(Seq<char>, Seq<char>)>)
    requires
        names_distinct(pairs),
    ensures
        forall|i: int|
            0 <= i < pairs.len() ==> pairs_to_map(pairs).contains_key(#[trigger] pairs[i].0)
                && pairs_to_map(pairs)[pairs[i].0] == pairs[i].1,
        forall|name: Seq<char>|
            pairs_to_map(pairs).contains_key(name) ==> names_hold(pairs, name),
{
    assert forall|i: int| 0 <= i < pairs.len() implies pairs_to_map(pairs).contains_key(
        #[trigger] pairs[i].0,
    ) && pairs_to_map(pairs)[pairs[i].0] == pairs[i].1 by {
        let name = pairs[i].0;
        assert(names_hold(pairs, name));
        let chosen = choose|k: int| 0 <= k < pairs.len() && #[trigger] pairs[k].0 == name;
        assert(chosen == i);
    }
}

/// A pair with a new name adds its entry to the mapping.
pub proof fn lemma_add_pair(pairs: Seq<(Seq<char>, Seq<char>)>, name: Seq<char>, value: Seq<char>)
    requires
        names_distinct(pairs),
        !names_hold(pairs, name),
    ensures
        names_distinct(pairs.push((name, value))),
        pairs_to_map(pairs.push((name, value))) == pairs_to_map(pairs).insert(name, value),
{
    let longer = pairs.push((name, value));
    assert forall|i: int, j: int| 0 <= i < j < longer.len() implies longer[i].0 != longer[j].0 by {
        assert(longer[i] == pairs[i]);
        if j < pairs.len() {
            assert(longer[j] == pairs[j]);
        }
    }
    lemma_pairs_to_map(pairs);
    lemma_pairs_to_map(longer);
    assert forall|key: Seq<char>| names_hold(longer, key) <==> (names_hold(pairs, key) || key
        == name) by {
        if names_hold(pairs, key) {
            let k = choose|k: int| 0 <= k < pairs.len() && #[trigger] pairs[k].0 == key;
            assert(longer[k].0 == key);
        }
        if names_hold(longer, key) {
            let k = choose|k: int| 0 <= k < longer.len() && #[trigger] longer[k].0 == key;
            if k < pairs.len() {
                assert(pairs[k].0 == key);
            }
        }
        if key == name {
            assert(longer[pairs.len() as int].0 == key);
        }
    }
    assert forall|key: Seq<char>| names_hold(longer, key) && key != name implies pairs_to_map(
        longer,
    )[key] == pairs_to_map(pairs)[key] by {
        let k = choose|k: int| 0 <= k < longer.len() && #[trigger] longer[k].0 == key;
        assert(pairs[k].0 == key);
        assert(pairs[k].1 == longer[k].1);
    }
    assert(pairs_to_map(longer) =~= pairs_to_map(pairs).insert(name, value));
}

/// A new value for the name of a pair takes the place of its entry in the mapping.
pub proof fn lemma_replace_pair(pairs: Seq<(Seq<char>, Seq<char>)>, at: int, value: Seq<char>)
    requires
        names_distinct(pairs),
        0 <= at < pairs.len(),
    ensures
        names_distinct(pairs.update(at, (pairs[at].0, value))),
        pairs_to_map(pairs.update(at, (pairs[at].0, value))) == pairs_to_map(pairs).insert(
            pairs[at].0,
            value,
        ),
{
    let name = pairs[at].0;
    let changed = pairs.update(at, (name, value));
    assert forall|i: int, j: int| 0 <= i < j < changed.len() implies changed[i].0
        != changed[j].0 by {
        assert(changed[i].0 == pairs[i].0);
        assert(changed[j].0 == pairs[j].0);
    }
    lemma_pairs_to_map(pairs);
    lemma_pairs_to_map(changed);
    assert forall|key: Seq<char>| names_hold(changed, key) <==> (names_hold(pairs, key) || key
        == name) by {
        if names_hold(pairs, key) {
            let k = choose|k: int| 0 <= k < pairs.len() && #[trigger] pairs[k].0 == key;
            assert(changed[k].0 == key);
        }
        if names_hold(changed, key) {
            let k = choose|k: int| 0 <= k < changed.len() && #[trigger] changed[k].0 == key;
            assert(pairs[k].0 == key);
        }
        if key == name {
            assert(changed[at].0 == key);
        }
    }
    assert forall|key: Seq<char>| names_hold(changed, key) && key != name implies pairs_to_map(
        changed,
    )[key] == pairs_to_map(pairs)[key] by {
        let k = choose|k: int| 0 <= k < changed.len() && #[trigger] changed[k].0 == key;
        assert(pairs[k].0 == key);
        assert(pairs[k].1 == changed[k].1);
    }
    assert(pairs_to_map(changed) =~= pairs_to_map(pairs).insert(name, value));
}

/// The header names a matcher asks for, each with the value it expects. A name is held
/// once, in the spelling it was given with; names that differ in case are different names.
#[derive(Debug)]
pub struct HeaderSpec {
    entries: Vec<(String, String)>,
}

impl View for HeaderSpec {
    type V = Map<Seq<char>, Seq<char>>;

    closed spec fn view(&self) -> Map<Seq<char>, Seq<char>> {
        pairs_to_map(self.entries.deep_view())
    }
}

impl HeaderSpec {
    #[verifier::type_invariant]
    spec fn wf(self) -> bool {
        names_distinct(self.entries.deep_view())
    }

    /// The pairs in the order in which their names were first inserted.
    pub closed spec fn pairs(&self) -> Seq<(Seq<char>, Seq<char>)> {
        self.entries.deep_view()
    }

    /// A specification that asks for no header.
    pub fn new() -> (spec: Self)
        ensures
            spec@ == Map::<Seq<char>, Seq<char>>::empty(),
            spec.pairs().len() == 0,
    {
        let spec = HeaderSpec { entries: Vec::new() };
        assert(spec@ =~= Map::<Seq<char>, Seq<char>>::empty());
        spec
    }

    /// Asks for `name` with `value`, in place of what was asked for `name` before.
    pub fn insert(&mut self, name: String, value: String)
        ensures
            final(self)@ == old(self)@.insert(name@, value@),
    {
        proof {
            use_type_invariant(&*self);
        }
        let ghost before = self.entries.deep_view();
        let mut entries: Vec<(String, String)> = Vec::new();
        core::mem::swap(&mut self.entries, &mut entries);
        let mut i: usize = 0;
        while i < entries.len()
            invariant
                i <= entries.len(),
                entries.deep_view() == before,
                names_distinct(before),
                old(self)@ == pairs_to_map(before),
                forall|k: int| 0 <= k < i ==> before[k].0 != name@,
            decreases entries.len() - i,
        {
            if entries[i].0 == name {
                assert(before[i as int] == entries[i as int].deep_view());
                entries.set(i, (name, value));
                proof {
                    assert(entries.deep_view() =~= before.update(i as int, (name@, value@)));
                    lemma_replace_pair(before, i as int, value@);
                }
                self.entries = entries;
                return ;
            }
            i += 1;
        }
        entries.push((name, value));
        proof {
            assert(entries.deep_view() =~= before.push((name@, value@)));
            lemma_add_pair(before, name@, value@);
        }
        self.entries = entries;
    }
}

impl HeaderSpec {
    /// The pairs as they are held, names distinct, for a caller that walks them.
    pub fn entries(&self) -> (entries: &Vec<(String, String)>)
        ensures
            entries.deep_view() == self.pairs(),
            names_distinct(self.pairs()),
            self@ == pairs_to_map(self.pairs()),
    {
        proof {
            use_type_invariant(self);
        }
        &self.entries
    }
}

impl Clone for HeaderSpec {
    fn clone(&self) -> (copy: Self)
        ensures
            copy@ == self@,
            copy.pairs() == self.pairs(),
    {
        proof {
            use_type_invariant(self);
        }
        let mut entries: Vec<(String, String)> = Vec::new();
        let mut i: usize = 0;
        while i < self.entries.len()
            invariant
                i <= self.entries.len(),
                entries.len() == i,
                forall|k: int| 0 <= k < i ==> entries[k].deep_view() == self.entries[k].deep_view(),
            decreases self.entries.len() - i,
        {
            let pair = &self.entries[i];
            entries.push((pair.0.clone(), pair.1.clone()));
            i += 1;
        }
        assert(entries.deep_view() =~= self.entries.deep_view());
        HeaderSpec { entries }
    }
}

/// One condition on a request: on its headers, on its JSON body, or on nothing.
#[derive(Debug)]
pub struct Matcher {
    /// The document that the body has to be.
    pub match_json_body: Option<serde_json::Value>,
    /// The headers that the request has to carry.
    pub match_headers: Option<HeaderSpec>,
}

/// A matcher as specifications see it.
pub struct MatcherView {
    pub json_spec: Option<serde_json::Value>,
    pub header_spec: Option<Map<Seq<char>, Seq<char>>>,
}

impl View for Matcher {
    type V = MatcherView;

    open spec fn view(&self) -> MatcherView {
        MatcherView {
            json_spec: self.match_json_body,
            header_spec: match self.match_headers {
                Some(spec) => Some(spec@),
                None => None,
            },
        }
    }
}

impl Clone for Matcher {
    fn clone(&self) -> (copy: Self)
        ensures
            copy@ == self@,
    {
        Matcher {
            match_json_body: match &self.match_json_body {
                Some(document) => Some(clone_document(document)),
                None => None,
            },
            match_headers: match &self.match_headers {
                Some(spec) => Some(spec.clone()),
                None => None,
            },
        }
    }
}

/// A named rule: when its matchers are satisfied as its strategy asks, its command is run.
#[derive(Debug)]
pub struct Webhook {
    pub name: String,
    /// `None` stands for [`MatchersStrategy::All`].
    pub matchers_strategy: Option<MatchersStrategy>,
    pub matchers: Vec<Matcher>,
    /// An executable and its arguments, separated by whitespace.
    pub actions_to_execute: String,
}

/// A rule as specifications see it.
pub struct WebhookView {
    pub name: Seq<char>,
    pub matchers_strategy: Option<MatchersStrategy>,
    pub matchers: Seq<MatcherView>,
    pub actions_to_execute: Seq<char>,
}

impl WebhookView {
    /// The strategy in force: the one that was configured, or `All`.
    pub open spec fn strategy(self) -> MatchersStrategy {
        match self.matchers_strategy {
            Some(strategy) => strategy,
            None => MatchersStrategy::All,
        }
    }
}

/// The views of a list of matchers, in order.
pub open spec fn matcher_views(matchers: Seq<Matcher>) -> Seq<MatcherView> {
    matchers.map_values(|matcher: Matcher| matcher@)
}

impl View for Webhook {
    type V = WebhookView;

    open spec fn view(&self) -> WebhookView {
        WebhookView {
            name: self.name@,
            matchers_strategy: self.matchers_strategy,
            matchers: matcher_views(self.matchers@),
            actions_to_execute: self.actions_to_execute@,
        }
    }
}

impl Default for Webhook {
    fn default() -> (rule: Self)
        ensures
            rule@.name.len() == 0,
            rule@.matchers_strategy.is_none(),
            rule@.matchers.len() == 0,
            rule@.actions_to_execute.len() == 0,
    {
        Webhook {
            name: String::new(),
            matchers_strategy: None,
            matchers: Vec::new(),
            actions_to_execute: String::new(),
        }
    }
}

impl Clone for Webhook {
    fn clone(&self) -> (copy: Self)
        ensures
            copy@ == self@,
    {
        let mut matchers: Vec<Matcher> = Vec::new();
        let mut i: usize = 0;
        while i < self.matchers.len()
            invariant
                i <= self.matchers.len(),
                matchers.len() == i,
                forall|k: int| 0 <= k < i ==> matchers[k]@ == self.matchers[k]@,
            decreases self.matchers.len() - i,
        {
            matchers.push(self.matchers[i].clone());
            i += 1;
        }
        assert(matcher_views(matchers@) =~= matcher_views(self.matchers@));
        Webhook {
            name: self.name.clone(),
            matchers_strategy: self.matchers_strategy,
            matchers,
            actions_to_execute: self.actions_to_execute.clone(),
        }
    }
}

/// The views of a list of rules, in order.
pub open spec fn webhook_views(webhooks: Seq<Webhook>) -> Seq<WebhookView> {
    webhooks.map_values(|webhook: Webhook| webhook@)
}

/// The rule store: the rules in the order in which they were declared.
#[derive(Debug)]
pub struct Config {
    pub webhooks: Vec<Webhook>,
}

impl View for Config {
    type V = Seq<WebhookView>;

    open spec fn view(&self) -> Seq<WebhookView> {
        webhook_views(self.webhooks@)
    }
}

impl Default for Config {
    fn default() -> (config: Self)
        ensures
            config@.len() == 0,
    {
        Config { webhooks: Vec::new() }
    }
}

/// The name of the configuration file that is read where none is given.
pub open spec fn default_config_file() -> Seq<char> {
    ".pagoo.json"@
}

/// The name of the configuration file to read: the one that is given, or the default.
pub open spec fn config_file_of(config_file: Option<Seq<char>>) -> Seq<char> {
    match config_file {
        Some(file) => file,
        None => default_config_file(),
    }
}

/// What is said where the configuration file does not exist.
pub open spec fn missing_config_file_message(config_file: Option<Seq<char>>) -> Seq<char> {
    match config_file {
        Some(file) => "Config file not found: "@ + file,
        None => "No config file specified, could not find a default one. You can create a \""@
            + default_config_file()
            + "\" file in this directory to configure the application."@,
    }
}

/// Gives the name of the configuration file to read.
pub fn get_config_file(config_file: Option<&str>) -> (file: String)
    ensures
        file@ == config_file_of(
            match config_file {
                Some(file) => Some(file@),
                None => None,
            },
        ),
{
    match config_file {
        Some(file) => file.to_owned(),
        None => ".pagoo.json".to_owned(),
    }
}

/// Says that the configuration file does not exist, naming the file that was asked for
/// or the default that could have been there.
pub fn config_file_error(config_file: Option<&str>) -> (message: String)
    ensures
        message@ == missing_config_file_message(
            match config_file {
                Some(file) => Some(file@),
                None => None,
            },
        ),
{
    match config_file {
        Some(file) => "Config file not found: ".to_owned().concat(file),
        None => {
            let default_file_name = get_config_file(None);
            "No config file specified, could not find a default one. You can create a \"".to_owned().concat(
                default_file_name.as_str(),
            ).concat("\" file in this directory to configure the application.")
        },
    }
}

} // verus!
