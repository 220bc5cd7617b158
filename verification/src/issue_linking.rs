//! Links to issues: where a text mentions an issue, and where the mention leads.
use crate::outside::patterns::{
    expand_match, expanded_match, find_matches, is_valid_pattern, match_ranges, valid_pattern,
};
use crate::outside::urls::{host_of, parse_url, parsed_url, url_host};
use crate::sorting::{
    in_order, lemma_sorted_all, lemma_sorted_holds, lemma_sorted_pairwise,
    lemma_sorted_successively, lemma_stably_sorted, orders, pairwise, stable_sort, stably_sorted,
    Sortable,
};
use crate::text::{
    begins, between, clone_optional, contains, decimal, halves, holds, lemma_between_all,
    lemma_between_joins, lemma_halves, lemma_replaced, number_text, replace, replaced, slice,
    split_once, stands_in, starts_with, strip_prefix, trim_trailing, without_trailing,
};
use std::ops::Range;
use vstd::prelude::*;
use vstd::string::*;
use vstd::utf8::*;

verus! {

/// A rule that links what a pattern matches to a URL, as it is configured.
#[derive(Clone, Debug, PartialEq, Eq)]
pub struct IssueLinkingRule {
    pub name: Option<String>,
    pub issue_regex: String,
    pub issue_url: String,
    pub enabled: bool,
}

/// What of an `IssueLinkingRule` decides about links.
#[verifier::ext_equal]
pub struct Rule {
    pub issue_regex: Seq<char>,
    pub issue_url: Seq<char>,
    pub enabled: bool,
}

impl DeepView for IssueLinkingRule {
    type V = Rule;

    open spec fn deep_view(&self) -> Rule {
        Rule {
            issue_regex: self.issue_regex@,
            issue_url: self.issue_url@,
            enabled: self.enabled,
        }
    }
}

/// A rule that is in use: a pattern, and a URL that speaks of nothing but the
/// pattern's groups.
#[derive(Clone, Debug, PartialEq, Eq)]
pub struct CompiledIssueLinkingRule {
    pub regex: String,
    pub issue_url: String,
}

/// What a `CompiledIssueLinkingRule` holds.
#[verifier::ext_equal]
pub struct CompiledRule {
    pub regex: Seq<char>,
    pub issue_url: Seq<char>,
}

impl DeepView for CompiledIssueLinkingRule {
    type V = CompiledRule;

    open spec fn deep_view(&self) -> CompiledRule {
        CompiledRule { regex: self.regex@, issue_url: self.issue_url@ }
    }
}

/// What the URL of a rule may speak of besides the pattern's groups.
#[derive(Clone, Debug, PartialEq, Eq)]
pub struct IssueUrlVariables {
    pub git_remote_url: Option<String>,
    pub git_remote_host: Option<String>,
    pub git_remote_owner: Option<String>,
    pub git_remote_repo: Option<String>,
    pub git_provider: Option<String>,
    pub git_provider_url: Option<String>,
    pub github_host: Option<String>,
    pub github_base_url: Option<String>,
    pub github_org: Option<String>,
    pub github_repo: Option<String>,
}

/// What `IssueUrlVariables` hold.
#[verifier::ext_equal]
pub struct Variables {
    pub git_remote_url: Option<Seq<char>>,
    pub git_remote_host: Option<Seq<char>>,
    pub git_remote_owner: Option<Seq<char>>,
    pub git_remote_repo: Option<Seq<char>>,
    pub git_provider: Option<Seq<char>>,
    pub git_provider_url: Option<Seq<char>>,
    pub github_host: Option<Seq<char>>,
    pub github_base_url: Option<Seq<char>>,
    pub github_org: Option<Seq<char>>,
    pub github_repo: Option<Seq<char>>,
}

impl DeepView for IssueUrlVariables {
    type V = Variables;

    open spec fn deep_view(&self) -> Variables {
        Variables {
            git_remote_url: self.git_remote_url.deep_view(),
            git_remote_host: self.git_remote_host.deep_view(),
            git_remote_owner: self.git_remote_owner.deep_view(),
            git_remote_repo: self.git_remote_repo.deep_view(),
            git_provider: self.git_provider.deep_view(),
            git_provider_url: self.git_provider_url.deep_view(),
            github_host: self.github_host.deep_view(),
            github_base_url: self.github_base_url.deep_view(),
            github_org: self.github_org.deep_view(),
            github_repo: self.github_repo.deep_view(),
        }
    }
}

/// No variable has a value.
pub open spec fn no_variables() -> Variables {
    Variables {
        git_remote_url: None,
        git_remote_host: None,
        git_remote_owner: None,
        git_remote_repo: None,
        git_provider: None,
        git_provider_url: None,
        github_host: None,
        github_base_url: None,
        github_org: None,
        github_repo: None,
    }
}

impl Default for IssueUrlVariables {
    fn default() -> (result: Self)
        ensures
            result.deep_view() == no_variables(),
            result.git_remote_url is None,
            result.git_remote_host is None,
            result.git_remote_owner is None,
            result.git_remote_repo is None,
            result.git_provider_url is None,
            result.git_provider is None,
            result.github_host is None,
            result.github_base_url is None,
            result.github_org is None,
            result.github_repo is None,
    {
        IssueUrlVariables {
            git_remote_url: None,
            git_remote_host: None,
            git_remote_owner: None,
            git_remote_repo: None,
            git_provider: None,
            git_provider_url: None,
            github_host: None,
            github_base_url: None,
            github_org: None,
            github_repo: None,
        }
    }
}

/// The host of a repository, and what the repository is called there.
#[derive(Clone, Debug, PartialEq, Eq)]
pub struct GitProvider {
    pub name: String,
    pub base_url: String,
    pub owner: String,
    pub repo: String,
}

/// The host that a remote's URL names in the form that SSH uses.
pub open spec fn ssh_host(remote_url: Seq<char>) -> Option<Seq<char>> {
    if begins(remote_url, "git@"@) {
        match halves(remote_url.skip("git@"@.len() as int), ':') {
            Some((host, _)) => Some(host),
            None => None,
        }
    } else {
        None
    }
}

/// The host of a remote, where `url_host` is the host of its URL.
pub open spec fn host_of_remote(remote_url: Seq<char>, url_host: Option<Seq<char>>) -> Option<
    Seq<char>,
> {
    match ssh_host(remote_url) {
        Some(host) => Some(host),
        None => url_host,
    }
}

/// The host that a remote's URL names in the form that SSH uses.
fn find_ssh_host(remote_url: &str) -> (result: Option<String>)
    ensures
        result.deep_view() == ssh_host(remote_url@),
{
    match strip_prefix(remote_url, "git@") {
        Some(rest) => match split_once(&rest, ':') {
            Some((host, _)) => Some(host),
            None => None,
        },
        None => None,
    }
}

/// The host of a remote, where `url_host` is the host of its URL.
pub fn choose_host(remote_url: &str, url_host: Option<String>) -> (result: Option<String>)
    ensures
        result.deep_view() == host_of_remote(remote_url@, url_host.deep_view()),
        !begins(remote_url@, "git@"@) ==> result == url_host,
        begins(remote_url@, "git@"@) && !remote_url@.skip(4).contains(':') ==> result == url_host,
        begins(remote_url@, "git@"@) && remote_url@.skip(4).contains(':') ==> (
        result matches Some(host) && !host@.contains(':') && exists|rest: Seq<char>|
            remote_url@ == #[trigger] ("git@"@ + host@ + seq![':'] + rest)),
{
    proof {
        reveal_strlit("git@");
        assert("git@"@.len() == 4);
        if begins(remote_url@, "git@"@) {
            let rest = remote_url@.skip(4);
            lemma_halves(rest, ':');
            assert(remote_url@ == "git@"@ + rest);
            if let Some((host, tail)) = halves(rest, ':') {
                assert(rest[host.len() as int] == ':');
                assert("git@"@ + (host + seq![':'] + tail) == "git@"@ + host + seq![':'] + tail);
            }
        }
    }
    match find_ssh_host(remote_url) {
        Some(host) => Some(host),
        None => url_host,
    }
}

/// The host of a remote.
pub fn remote_host(remote_url: &str) -> (result: Option<String>)
    ensures
        result.deep_view() == host_of_remote(remote_url@, url_host(remote_url@)),
{
    choose_host(remote_url, host_of(remote_url))
}

/// The variables of the remote at `remote_url`, whose host is `remote_host`, and
/// which `provider`, whose own host is `provider_host`, is the provider of.
pub open spec fn remote_variables(
    remote_url: Seq<char>,
    remote_host: Option<Seq<char>>,
    provider: Option<GitProvider>,
    provider_host: Option<Seq<char>>,
) -> Variables {
    let known = Variables {
        git_remote_url: Some(remote_url),
        git_remote_host: remote_host,
        ..no_variables()
    };
    match provider {
        None => known,
        Some(provider) => {
            let base_url = without_trailing(provider.base_url@, '/');
            let provided = Variables {
                git_provider: Some(provider.name@),
                git_provider_url: Some(base_url),
                git_remote_owner: Some(provider.owner@),
                git_remote_repo: Some(provider.repo@),
                ..known
            };
            if begins(provider.name@, "GitHub"@) {
                Variables {
                    github_host: provider_host,
                    github_base_url: Some(base_url),
                    github_org: Some(provider.owner@),
                    github_repo: Some(provider.repo@),
                    ..provided
                }
            } else {
                provided
            }
        },
    }
}

/// What stands in a template for a variable's value, in braces.
pub open spec fn braced(name: Seq<char>) -> Seq<char> {
    "${"@ + name + "}"@
}

/// What stands in a template for a variable's value, without braces.
pub open spec fn unbraced(name: Seq<char>) -> Seq<char> {
    "$"@ + name
}

/// `template` with the value of a variable wherever it speaks of the variable. Of a
/// variable without a value it must not speak.
pub open spec fn with_variable(template: Seq<char>, name: Seq<char>, value: Option<Seq<char>>) -> Option<
    Seq<char>,
> {
    if holds(template, braced(name)) || holds(template, unbraced(name)) {
        match value {
            None => None,
            Some(value) => Some(
                replaced(replaced(template, braced(name), value), unbraced(name), value),
            ),
        }
    } else {
        Some(template)
    }
}

/// `template` with the values of variables, one after the other.
pub open spec fn with_variables(
    template: Seq<char>,
    variables: Seq<(Seq<char>, Option<Seq<char>>)>,
) -> Option<Seq<char>>
    decreases variables.len(),
{
    if variables.len() == 0 {
        Some(template)
    } else {
        match with_variables(template, variables.drop_last()) {
            None => None,
            Some(template) => with_variable(
                template,
                variables.last().0,
                variables.last().1,
            ),
        }
    }
}

/// The variables by name. One whose name another one starts with comes after it.
pub open spec fn named_variables(variables: Variables) -> Seq<(Seq<char>, Option<Seq<char>>)> {
    seq![
        ("GIT_REMOTE_URL"@, variables.git_remote_url),
        ("GIT_REMOTE_HOST"@, variables.git_remote_host),
        ("GIT_REMOTE_OWNER"@, variables.git_remote_owner),
        ("GIT_REMOTE_REPO"@, variables.git_remote_repo),
        ("GIT_PROVIDER_URL"@, variables.git_provider_url),
        ("GIT_PROVIDER"@, variables.git_provider),
        ("GITHUB_HOST"@, variables.github_host),
        ("GITHUB_BASE_URL"@, variables.github_base_url),
        ("GITHUB_ORG"@, variables.github_org),
        ("GITHUB_REPO"@, variables.github_repo),
    ]
}

/// `template` with the values of the variables it speaks of.
pub open spec fn expanded_template(template: Seq<char>, variables: Variables) -> Option<Seq<char>> {
    with_variables(template, named_variables(variables))
}

/// The template with the value of a variable wherever it speaks of the variable.
fn expand_variable(template: String, name: &str, value: &Option<String>) -> (result: Option<String>)
    ensures
        result.deep_view() == with_variable(template@, name@, value.deep_view()),
        !holds(template@, "${"@ + name@ + "}"@) && !holds(template@, "$"@ + name@) ==> (
        result matches Some(same) && same@ == template@),
        holds(template@, "${"@ + name@ + "}"@) || holds(template@, "$"@ + name@) ==> match value {
            None => result is None,
            Some(value) => result matches Some(expanded) && expanded@ == replaced(
                replaced(template@, "${"@ + name@ + "}"@, value@),
                "$"@ + name@,
                value@,
            ),
        },
{
    let mut in_braces = "${".to_owned();
    in_braces.append(name);
    in_braces.append("}");
    let mut bare = "$".to_owned();
    bare.append(name);
    proof {
        reveal_strlit("${");
        reveal_strlit("$");
    }
    if contains(&template, &in_braces) || contains(&template, &bare) {
        match value {
            None => None,
            Some(value) => Some(replace(&replace(&template, &in_braces, value), &bare, value)),
        }
    } else {
        Some(template)
    }
}

/// What is said of the first variables is said of all of them.
proof fn lemma_first_missing(
    template: Seq<char>,
    variables: Seq<(Seq<char>, Option<Seq<char>>)>,
    n: int,
)
    requires
        0 <= n <= variables.len(),
        with_variables(template, variables.take(n)) is None,
    ensures
        with_variables(template, variables) is None,
    decreases variables.len(),
{
    if n == variables.len() {
        assert(variables.take(n) == variables);
    } else {
        assert(variables.drop_last().take(n) == variables.take(n));
        lemma_first_missing(template, variables.drop_last(), n);
    }
}

/// A template without a dollar sign speaks of no variable.
pub proof fn lemma_plain_template(template: Seq<char>, variables: Variables)
    requires
        !template.contains('$'),
    ensures
        expanded_template(template, variables) == Some(template),
{
    lemma_plain_templates(template, named_variables(variables));
}

proof fn lemma_plain_templates(
    template: Seq<char>,
    variables: Seq<(Seq<char>, Option<Seq<char>>)>,
)
    requires
        !template.contains('$'),
    ensures
        with_variables(template, variables) == Some(template),
    decreases variables.len(),
{
    reveal_strlit("${");
    reveal_strlit("$");
    if variables.len() > 0 {
        lemma_plain_templates(template, variables.drop_last());
        let name = variables.last().0;
        assert(braced(name)[0] == '$');
        assert(unbraced(name)[0] == '$');
        if holds(template, braced(name)) {
            let at = choose|at: int|
                0 <= at <= template.len() && begins(#[trigger] template.skip(at), braced(name));
            assert(template.skip(at)[0] == '$');
            assert(template[at] == '$');
        }
        if holds(template, unbraced(name)) {
            let at = choose|at: int|
                0 <= at <= template.len() && begins(#[trigger] template.skip(at), unbraced(name));
            assert(template.skip(at)[0] == '$');
            assert(template[at] == '$');
        }
    }
}

impl IssueUrlVariables {
    /// The variables of a remote, if there is one, and of the provider that its URL
    /// was found to belong to, if there is one.
    pub fn from_remote_url(remote_url: Option<&str>, provider: Option<GitProvider>) -> (result: Self)
        ensures
            result.deep_view() == match remote_url.deep_view() {
                None => no_variables(),
                Some(url) => remote_variables(
                    url,
                    host_of_remote(url, url_host(url)),
                    provider,
                    match provider {
                        Some(provider) => url_host(provider.base_url@),
                        None => None,
                    },
                ),
            },
    {
        match remote_url {
            None => IssueUrlVariables::default(),
            Some(url) => {
                let provider_host = match &provider {
                    Some(provider) => host_of(&provider.base_url),
                    None => None,
                };
                Self::from_parts(url, remote_host(url), provider, provider_host)
            },
        }
    }

    /// The variables of the remote at `remote_url`, whose host is `remote_host`, and
    /// which `provider`, whose own host is `provider_host`, is the provider of.
    pub fn from_parts(
        remote_url: &str,
        remote_host: Option<String>,
        provider: Option<GitProvider>,
        provider_host: Option<String>,
    ) -> (result: Self)
        ensures
            result.deep_view() == remote_variables(
                remote_url@,
                remote_host.deep_view(),
                provider,
                provider_host.deep_view(),
            ),
            result.git_remote_url.deep_view() == Some(remote_url@),
            result.git_remote_host.deep_view() == remote_host.deep_view(),
            provider is None ==> {
                &&& result.git_remote_owner is None
                &&& result.git_remote_repo is None
                &&& result.git_provider is None
                &&& result.git_provider_url is None
            },
            provider matches Some(provider) ==> {
                &&& result.git_remote_owner.deep_view() == Some(provider.owner@)
                &&& result.git_remote_repo.deep_view() == Some(provider.repo@)
                &&& result.git_provider.deep_view() == Some(provider.name@)
                &&& result.git_provider_url.deep_view() == Some(
                    without_trailing(provider.base_url@, '/'),
                )
            },
            (provider matches Some(provider) && begins(provider.name@, "GitHub"@)) ==> {
                &&& result.github_host.deep_view() == provider_host.deep_view()
                &&& result.github_base_url.deep_view() == Some(
                    without_trailing(provider->0.base_url@, '/'),
                )
                &&& result.github_org.deep_view() == Some(provider->0.owner@)
                &&& result.github_repo.deep_view() == Some(provider->0.repo@)
            },
            !(provider matches Some(provider) && begins(provider.name@, "GitHub"@)) ==> {
                &&& result.github_host is None
                &&& result.github_base_url is None
                &&& result.github_org is None
                &&& result.github_repo is None
            },
    {
        let mut variables = IssueUrlVariables::default();
        variables.git_remote_url = Some(remote_url.to_owned());
        variables.git_remote_host = remote_host;
        if let Some(provider) = provider {
            let base_url = trim_trailing(&provider.base_url, '/');
            if starts_with(&provider.name, "GitHub") {
                variables.github_host = provider_host;
                variables.github_base_url = Some(base_url.clone());
                variables.github_org = Some(provider.owner.clone());
                variables.github_repo = Some(provider.repo.clone());
            }
            variables.git_provider = Some(provider.name);
            variables.git_provider_url = Some(base_url);
            variables.git_remote_owner = Some(provider.owner);
            variables.git_remote_repo = Some(provider.repo);
        }
        variables
    }

    /// The template with the values of the variables it speaks of, unless it speaks
    /// of one that has none.
    pub fn expand_template(&self, template: &str) -> (result: Option<String>)
        ensures
            result.deep_view() == expanded_template(template@, self.deep_view()),
    {
        let ghost list = named_variables(self.deep_view());
        let mut named: Vec<(&'static str, Option<String>)> = Vec::new();
        named.push(("GIT_REMOTE_URL", clone_optional(&self.git_remote_url)));
        named.push(("GIT_REMOTE_HOST", clone_optional(&self.git_remote_host)));
        named.push(("GIT_REMOTE_OWNER", clone_optional(&self.git_remote_owner)));
        named.push(("GIT_REMOTE_REPO", clone_optional(&self.git_remote_repo)));
        named.push(("GIT_PROVIDER_URL", clone_optional(&self.git_provider_url)));
        named.push(("GIT_PROVIDER", clone_optional(&self.git_provider)));
        named.push(("GITHUB_HOST", clone_optional(&self.github_host)));
        named.push(("GITHUB_BASE_URL", clone_optional(&self.github_base_url)));
        named.push(("GITHUB_ORG", clone_optional(&self.github_org)));
        named.push(("GITHUB_REPO", clone_optional(&self.github_repo)));
        assert(named@.len() == list.len());
        assert forall|i: int| 0 <= i < list.len() implies (#[trigger] list[i]).0 == named@[i].0@
            && list[i].1 == named@[i].1.deep_view() by {}
        let mut expanded = template.to_owned();
        for i in 0..named.len()
            invariant
                list == named_variables(self.deep_view()),
                named@.len() == list.len(),
                forall|j: int|
                    0 <= j < list.len() ==> (#[trigger] list[j]).0 == named@[j].0@ && list[j].1
                        == named@[j].1.deep_view(),
                with_variables(template@, list.take(i as int)) == Some(expanded@),
        {
            proof {
                assert(list.take(i + 1).drop_last() == list.take(i as int));
                assert(list.take(i + 1).last() == list[i as int]);
            }
            match expand_variable(expanded, named[i].0, &named[i].1) {
                Some(next) => {
                    expanded = next;
                },
                None => {
                    proof {
                        lemma_first_missing(template@, list, i + 1);
                    }
                    return None;
                },
            }
        }
        assert(list.take(list.len() as int) == list);
        Some(expanded)
    }
}

/// The rule that `rule` becomes in use, where `valid` says whether its pattern is a
/// regular expression.
pub open spec fn compiled_rule(rule: Rule, valid: bool, variables: Variables) -> Option<
    CompiledRule,
> {
    if rule.enabled && valid {
        match expanded_template(rule.issue_url, variables) {
            Some(issue_url) => Some(CompiledRule { regex: rule.issue_regex, issue_url }),
            None => None,
        }
    } else {
        None
    }
}

/// The rule that `rule` becomes in use, where `valid` says whether its pattern is a
/// regular expression.
pub fn compile_rule(rule: &IssueLinkingRule, valid: bool, variables: &IssueUrlVariables) -> (result:
    Option<CompiledIssueLinkingRule>)
    ensures
        result.deep_view() == compiled_rule(rule.deep_view(), valid, variables.deep_view()),
        result is Some <==> rule.enabled && valid && expanded_template(
            rule.issue_url@,
            variables.deep_view(),
        ) is Some,
        result matches Some(compiled) ==> {
            &&& compiled.regex@ == rule.issue_regex@
            &&& expanded_template(rule.issue_url@, variables.deep_view()) == Some(
                compiled.issue_url@,
            )
        },
{
    if !rule.enabled || !valid {
        return None;
    }
    match variables.expand_template(&rule.issue_url) {
        Some(issue_url) => Some(
            CompiledIssueLinkingRule { regex: rule.issue_regex.clone(), issue_url },
        ),
        None => None,
    }
}

/// The rules that `rules` become in use, in their order.
pub open spec fn compiled_rules(rules: Seq<Rule>, variables: Variables) -> Seq<CompiledRule>
    decreases rules.len(),
{
    if rules.len() == 0 {
        Seq::empty()
    } else {
        let before = compiled_rules(rules.drop_last(), variables);
        let rule = rules.last();
        match compiled_rule(rule, valid_pattern(rule.issue_regex), variables) {
            Some(compiled) => before.push(compiled),
            None => before,
        }
    }
}

/// What a link leads to.
#[derive(Clone, Copy, Debug, PartialEq, Eq, Structural)]
pub enum IssueLinkKind {
    RawUrl,
    Issue,
}

/// A part of a text, in bytes, that leads somewhere.
#[derive(Debug, PartialEq, Eq)]
pub struct IssueLink {
    pub range: Range<usize>,
    pub url: String,
    pub kind: IssueLinkKind,
}

/// What an `IssueLink` holds.
#[verifier::ext_equal]
pub struct Link {
    pub start: usize,
    pub end: usize,
    pub url: Seq<char>,
    pub kind: IssueLinkKind,
}

impl DeepView for IssueLink {
    type V = Link;

    open spec fn deep_view(&self) -> Link {
        Link {
            start: self.range.start,
            end: self.range.end,
            url: self.url@,
            kind: self.kind,
        }
    }
}

impl Sortable for IssueLink {
    open spec fn order() -> spec_fn(Link, Link) -> bool {
        |a: Link, b: Link| a.start < b.start
    }

    fn goes_before(&self, other: &Self) -> (result: bool) {
        self.range.start < other.range.start
    }
}

/// A URL that stands in a text as it is.
#[derive(Debug, PartialEq, Eq)]
pub struct RawLink {
    pub range: Range<usize>,
    pub url: String,
}

/// A `RawLink` holds what a link holds.
impl DeepView for RawLink {
    type V = Link;

    open spec fn deep_view(&self) -> Link {
        Link {
            start: self.range.start,
            end: self.range.end,
            url: self.url@,
            kind: IssueLinkKind::RawUrl,
        }
    }
}

/// What a rule found in a text, and where it leads if it leads anywhere.
#[derive(Debug, PartialEq, Eq)]
pub struct IssueMatch {
    pub range: Range<usize>,
    pub url: Option<String>,
}

/// What an `IssueMatch` holds.
#[verifier::ext_equal]
pub struct Match {
    pub start: usize,
    pub end: usize,
    pub url: Option<Seq<char>>,
}

impl DeepView for IssueMatch {
    type V = Match;

    open spec fn deep_view(&self) -> Match {
        Match { start: self.range.start, end: self.range.end, url: self.url.deep_view() }
    }
}

/// Whether two ranges have something in common.
pub open spec fn overlap(left_start: usize, left_end: usize, right_start: usize, right_end: usize) -> bool {
    left_start < right_end && right_start < left_end
}

/// Whether two ranges have something in common.
pub fn ranges_overlap(left: &Range<usize>, right: &Range<usize>) -> (result: bool)
    ensures
        result == overlap(left.start, left.end, right.start, right.end),
        result <==> left.start < right.end && right.start < left.end,
{
    left.start < right.end && right.start < left.end
}

/// Whether a range has something in common with one of `links`.
pub open spec fn claimed(links: Seq<Link>, start: usize, end: usize) -> bool {
    exists|i: int|
        0 <= i < links.len() && overlap((#[trigger] links[i]).start, links[i].end, start, end)
}

/// `links` and what was found besides them: what is not empty, has nothing in common
/// with a link before it, and leads somewhere.
pub open spec fn with_matches(links: Seq<Link>, found: Seq<Match>) -> Seq<Link>
    decreases found.len(),
{
    if found.len() == 0 {
        links
    } else {
        let before = with_matches(links, found.drop_last());
        let last = found.last();
        match last.url {
            Some(url) => if last.start < last.end && !claimed(before, last.start, last.end) {
                before.push(
                    Link { start: last.start, end: last.end, url, kind: IssueLinkKind::Issue },
                )
            } else {
                before
            },
            None => before,
        }
    }
}

/// Where a URL leads, if it is one.
pub open spec fn target(url: Result<Seq<char>, Seq<char>>) -> Option<Seq<char>> {
    match url {
        Ok(url) => Some(url),
        Err(_) => None,
    }
}

/// What `rule` finds in `text`.
pub open spec fn found_by(rule: CompiledRule, text: Seq<char>) -> Seq<Match> {
    let ranges = match_ranges(rule.regex, text);
    Seq::new(
        ranges.len(),
        |k: int|
            Match {
                start: ranges[k].0,
                end: ranges[k].1,
                url: target(
                    parsed_url(expanded_match(rule.regex, text, k as usize, rule.issue_url)),
                ),
            },
    )
}

/// `links` and what `rules` find besides them in `text`, one rule after the other.
pub open spec fn with_rules(links: Seq<Link>, rules: Seq<CompiledRule>, text: Seq<char>) -> Seq<Link>
    decreases rules.len(),
{
    if rules.len() == 0 {
        links
    } else {
        with_matches(with_rules(links, rules.drop_last(), text), found_by(rules.last(), text))
    }
}

/// The links of `text`, from left to right: those that stand in it as they are, and
/// those that `rules` find besides them.
pub open spec fn links_of(raw: Seq<Link>, rules: Seq<CompiledRule>, text: Seq<char>) -> Seq<Link> {
    stably_sorted(with_rules(raw, rules, text), |a: Link, b: Link| a.start < b.start)
}

/// The links of `text` that lead to issues.
pub open spec fn issue_links_of(raw: Seq<Link>, rules: Seq<CompiledRule>, text: Seq<char>) -> Seq<Link> {
    links_of(raw, rules, text).filter(|link: Link| link.kind == IssueLinkKind::Issue)
}

/// The URLs that stand in a text as they are, as links.
pub fn raw_url_links(raw: Vec<RawLink>) -> (result: Vec<IssueLink>)
    ensures
        result.deep_view() == raw.deep_view(),
{
    let ghost models = raw.deep_view();
    let mut links: Vec<IssueLink> = Vec::new();
    for link in iter: raw
        invariant
            iter.seq() == raw@,
            models == raw.deep_view(),
            links.deep_view() == models.take(iter.index() as int),
    {
        let ghost before = links.deep_view();
        let ghost n = iter.index() as int;
        assert(models[n] == link.deep_view());
        links.push(IssueLink { range: link.range, url: link.url, kind: IssueLinkKind::RawUrl });
        assert(links.deep_view() == before.push(models[n]));
    }
    assert(models.take(models.len() as int) == models);
    links
}

/// Whether a range has something in common with one of `links`.
fn is_claimed(links: &Vec<IssueLink>, range: &Range<usize>) -> (result: bool)
    ensures
        result == claimed(links.deep_view(), range.start, range.end),
{
    for i in 0..links.len()
        invariant
            forall|j: int|
                0 <= j < i ==> !overlap(
                    (#[trigger] links.deep_view()[j]).start,
                    links.deep_view()[j].end,
                    range.start,
                    range.end,
                ),
    {
        assert(links.deep_view()[i as int] == links[i as int].deep_view());
        if ranges_overlap(&links[i].range, range) {
            return true;
        }
    }
    false
}

/// The links and what was found besides them.
pub fn add_matches(links: Vec<IssueLink>, found: Vec<IssueMatch>) -> (result: Vec<IssueLink>)
    ensures
        result.deep_view() == with_matches(links.deep_view(), found.deep_view()),
        forall|i: int|
            0 <= i < found@.len() && (#[trigger] found@[i]).url is Some && found@[i].range.start
                < found@[i].range.end ==> exists|k: int|
                0 <= k < result@.len() && (#[trigger] result@[k]).range.start < found@[i].range.end
                    && found@[i].range.start < result@[k].range.end,
        forall|k: int|
            0 <= k < links@.len() ==> k < result@.len() && (#[trigger] result@[k]).deep_view()
                == links@[k].deep_view(),
{
    let ghost start = links.deep_view();
    let ghost models = found.deep_view();
    let mut links = links;
    assert(models.take(0) == Seq::<Match>::empty());
    for each in iter: found
        invariant
            iter.seq() == found@,
            models == found.deep_view(),
            links.deep_view() == with_matches(start, models.take(iter.index() as int)),
    {
        let ghost before = links.deep_view();
        let ghost n = iter.index() as int;
        proof {
            assert(models.take(n + 1).drop_last() == models.take(n));
            assert(models.take(n + 1).last() == each.deep_view());
        }
        if each.range.start < each.range.end && !is_claimed(&links, &each.range) {
            if let Some(url) = each.url {
                let link = IssueLink { range: each.range, url, kind: IssueLinkKind::Issue };
                let ghost model = link.deep_view();
                links.push(link);
                assert(links.deep_view() == before.push(model));
            }
        }
    }
    assert(models.take(models.len() as int) == models);
    proof {
        lemma_matches_extend(start, models);
        assert forall|k: int| 0 <= k < start.len() implies k < links@.len() && (
        #[trigger] links@[k]).deep_view() == start[k] by {
            assert(links.deep_view().take(start.len() as int)[k] == start[k]);
            assert(links.deep_view()[k] == links@[k].deep_view());
        }
        assert forall|i: int|
            0 <= i < found@.len() && (#[trigger] found@[i]).url is Some && found@[i].range.start
                < found@[i].range.end implies exists|k: int|
            0 <= k < links@.len() && (#[trigger] links@[k]).range.start < found@[i].range.end
                && found@[i].range.start < links@[k].range.end by {
            assert(models[i] == found@[i].deep_view());
            lemma_match_is_linked(start, models, i);
            let all = links.deep_view();
            let k = choose|k: int|
                0 <= k < all.len() && ((#[trigger] all[k]).start < models[i].end && models[i].start
                    < all[k].end);
            assert(all[k] == links@[k].deep_view());
        }
    }
    links
}

/// Whether a link that leads to an issue is not empty and stands between characters
/// of `text`.
pub open spec fn well_placed(link: Link, text: Seq<char>) -> bool {
    link.kind == IssueLinkKind::Issue ==> link.start < link.end && stands_in(
        text,
        link.start as int,
        link.end as int,
    )
}

/// Whether every link of `links` that leads to an issue is not empty and stands
/// between characters of `text`.
pub open spec fn all_well_placed(links: Seq<Link>, text: Seq<char>) -> bool {
    forall|i: int| 0 <= i < links.len() ==> well_placed(#[trigger] links[i], text)
}

/// Whether what was found stands between characters of `text`.
pub open spec fn all_found_in(found: Seq<Match>, text: Seq<char>) -> bool {
    forall|i: int|
        0 <= i < found.len() ==> stands_in(
            text,
            (#[trigger] found[i]).start as int,
            found[i].end as int,
        )
}

/// What is found besides links stands where it was found.
proof fn lemma_matches_well_placed(links: Seq<Link>, found: Seq<Match>, text: Seq<char>)
    requires
        all_well_placed(links, text),
        all_found_in(found, text),
    ensures
        all_well_placed(with_matches(links, found), text),
    decreases found.len(),
{
    if found.len() > 0 {
        let rest = found.drop_last();
        assert forall|i: int| 0 <= i < rest.len() implies stands_in(
            text,
            (#[trigger] rest[i]).start as int,
            rest[i].end as int,
        ) by {
            assert(rest[i] == found[i]);
        }
        lemma_matches_well_placed(links, rest, text);
        let last = found[found.len() - 1];
        assert(stands_in(text, last.start as int, last.end as int));
        let before = with_matches(links, rest);
        let after = with_matches(links, found);
        assert forall|i: int| 0 <= i < after.len() implies well_placed(
            #[trigger] after[i],
            text,
        ) by {
            if i < before.len() {
                assert(well_placed(before[i], text));
            }
        }
    }
}

/// What a rule finds in a text, and where it leads.
fn find_issues(rule: &CompiledIssueLinkingRule, text: &str) -> (result: Vec<IssueMatch>)
    ensures
        result.deep_view() == found_by(rule.deep_view(), text@),
        all_found_in(found_by(rule.deep_view(), text@), text@),
{
    let ranges = find_matches(&rule.regex, text);
    let ghost found = found_by(rule.deep_view(), text@);
    proof {
        assert forall|i: int| 0 <= i < found.len() implies stands_in(
            text@,
            (#[trigger] found[i]).start as int,
            found[i].end as int,
        ) by {
            assert(stands_in(text@, ranges@[i].0 as int, ranges@[i].1 as int));
        }
    }
    let mut result: Vec<IssueMatch> = Vec::new();
    for k in 0..ranges.len()
        invariant
            ranges@ == match_ranges(rule.deep_view().regex, text@),
            found == found_by(rule.deep_view(), text@),
            result.deep_view() == found.take(k as int),
    {
        let ghost before = result.deep_view();
        let expanded = expand_match(&rule.regex, text, k, &rule.issue_url);
        let url = match parse_url(&expanded) {
            Ok(url) => Some(url),
            Err(_) => None,
        };
        let (start, end) = ranges[k];
        result.push(IssueMatch { range: start..end, url });
        assert(result.deep_view() == before.push(found[k as int]));
    }
    assert(found.take(found.len() as int) == found);
    result
}

/// Whether two links have nothing in common, unless neither leads to an issue.
pub open spec fn apart(a: Link, b: Link) -> bool {
    (a.kind == IssueLinkKind::Issue || b.kind == IssueLinkKind::Issue) ==> !overlap(
        a.start,
        a.end,
        b.start,
        b.end,
    )
}

/// Links that are apart stay apart as more are found.
proof fn lemma_matches_apart(links: Seq<Link>, found: Seq<Match>)
    requires
        pairwise(links, |a: Link, b: Link| apart(a, b)),
    ensures
        pairwise(with_matches(links, found), |a: Link, b: Link| apart(a, b)),
    decreases found.len(),
{
    if found.len() > 0 {
        lemma_matches_apart(links, found.drop_last());
        let before = with_matches(links, found.drop_last());
        let after = with_matches(links, found);
        let holds = |a: Link, b: Link| apart(a, b);
        assert forall|i: int, j: int| 0 <= i < j < after.len() implies holds(
            #[trigger] after[i],
            #[trigger] after[j],
        ) && holds(after[j], after[i]) by {
            if j < before.len() {
                assert(holds(before[i], before[j]));
            } else {
                assert(!overlap(before[i].start, before[i].end, after[j].start, after[j].end));
            }
        }
    }
}

/// Links stay where they are as more are found.
proof fn lemma_matches_extend(links: Seq<Link>, found: Seq<Match>)
    ensures
        with_matches(links, found).len() >= links.len(),
        with_matches(links, found).take(links.len() as int) == links,
    decreases found.len(),
{
    if found.len() > 0 {
        lemma_matches_extend(links, found.drop_last());
    }
}

/// Links that rules find besides others are apart from them and from each other.
pub proof fn lemma_rules_apart(links: Seq<Link>, rules: Seq<CompiledRule>, text: Seq<char>)
    requires
        pairwise(links, |a: Link, b: Link| apart(a, b)),
    ensures
        pairwise(with_rules(links, rules, text), |a: Link, b: Link| apart(a, b)),
    decreases rules.len(),
{
    if rules.len() > 0 {
        lemma_rules_apart(links, rules.drop_last(), text);
        lemma_matches_apart(
            with_rules(links, rules.drop_last(), text),
            found_by(rules.last(), text),
        );
    }
}

/// What is a link stays one whatever rules come behind: neither a URL that stands in
/// the text nor a link that an earlier rule found gives way to a later rule.
pub proof fn lemma_earlier_links_stay(
    links: Seq<Link>,
    earlier: Seq<CompiledRule>,
    later: Seq<CompiledRule>,
    text: Seq<char>,
)
    ensures
        with_rules(links, earlier + later, text).len() >= with_rules(links, earlier, text).len(),
        with_rules(links, earlier + later, text).take(
            with_rules(links, earlier, text).len() as int,
        ) == with_rules(links, earlier, text),
    decreases later.len(),
{
    let first = with_rules(links, earlier, text);
    if later.len() == 0 {
        assert(earlier + later == earlier);
        assert(first.take(first.len() as int) == first);
    } else {
        lemma_earlier_links_stay(links, earlier, later.drop_last(), text);
        assert((earlier + later).drop_last() == earlier + later.drop_last());
        let middle = with_rules(links, earlier + later.drop_last(), text);
        lemma_matches_extend(middle, found_by(later.last(), text));
        let all = with_rules(links, earlier + later, text);
        assert(all.take(first.len() as int) == all.take(middle.len() as int).take(
            first.len() as int,
        ));
    }
}

/// The links of a text stand from left to right, and no link that leads to an issue
/// has anything in common with another link.
pub proof fn lemma_links_in_order(raw: Seq<Link>, rules: Seq<CompiledRule>, text: Seq<char>)
    requires
        forall|i: int|
            0 <= i < raw.len() ==> (#[trigger] raw[i]).kind == IssueLinkKind::RawUrl,
    ensures
        in_order(links_of(raw, rules, text), |a: Link, b: Link| a.start < b.start),
        pairwise(links_of(raw, rules, text), |a: Link, b: Link| apart(a, b)),
{
    let before = |a: Link, b: Link| a.start < b.start;
    let holds = |a: Link, b: Link| apart(a, b);
    assert forall|i: int, j: int| 0 <= i < j < raw.len() implies holds(
        #[trigger] raw[i],
        #[trigger] raw[j],
    ) && holds(raw[j], raw[i]) by {
        assert(raw[i].kind == IssueLinkKind::RawUrl);
        assert(raw[j].kind == IssueLinkKind::RawUrl);
    }
    lemma_rules_apart(raw, rules, text);
    assert(orders(before));
    lemma_stably_sorted(with_rules(raw, rules, text), before);
    lemma_sorted_pairwise(with_rules(raw, rules, text), before, holds);
}

/// The rules that are in use, the first that finds something first.
#[derive(Clone, Debug, PartialEq, Eq)]
pub struct IssueLinkingRules {
    pub rules: Vec<CompiledIssueLinkingRule>,
}

impl Default for IssueLinkingRules {
    fn default() -> (result: Self)
        ensures
            result.rules.deep_view() == Seq::<CompiledRule>::empty(),
    {
        IssueLinkingRules { rules: Vec::new() }
    }
}

/// A part of a label: a text that stands in the source where told, the link that it
/// leads to if it leads anywhere, and what of it is highlighted.
#[derive(Debug, PartialEq, Eq)]
pub struct LabelSegment {
    pub text: String,
    pub start: usize,
    pub end: usize,
    pub link: Option<LinkTarget>,
    pub highlights: Vec<(usize, usize)>,
}

/// Where a part of a label leads, and what the part is known by.
#[derive(Debug, PartialEq, Eq)]
pub struct LinkTarget {
    pub id: String,
    pub url: String,
}

/// What a `LabelSegment` holds.
#[verifier::ext_equal]
pub struct Segment {
    pub text: Seq<char>,
    pub start: usize,
    pub end: usize,
    pub link: Option<(Seq<char>, Seq<char>)>,
    pub highlights: Seq<(usize, usize)>,
}

impl DeepView for LabelSegment {
    type V = Segment;

    open spec fn deep_view(&self) -> Segment {
        Segment {
            text: self.text@,
            start: self.start,
            end: self.end,
            link: match self.link {
                Some(link) => Some((link.id@, link.url@)),
                None => None,
            },
            highlights: self.highlights@,
        }
    }
}

/// What of `highlights` lies in a part of the source, as offsets into the part.
pub open spec fn clipped(highlights: Seq<(usize, usize)>, start: usize, end: usize) -> Seq<
    (usize, usize),
>
    decreases highlights.len(),
{
    if highlights.len() == 0 {
        Seq::empty()
    } else {
        let before = clipped(highlights.drop_last(), start, end);
        let from = if highlights.last().0 > start {
            highlights.last().0
        } else {
            start
        };
        let to = if highlights.last().1 < end {
            highlights.last().1
        } else {
            end
        };
        if from < to {
            before.push(((from - start) as usize, (to - start) as usize))
        } else {
            before
        }
    }
}

/// What of the highlights lies in a part of the source, as offsets into the part.
pub fn clip_highlights(highlights: &Vec<(usize, usize)>, start: usize, end: usize) -> (result: Vec<
    (usize, usize),
>)
    ensures
        result@ == clipped(highlights@, start, end),
{
    let mut result: Vec<(usize, usize)> = Vec::new();
    assert(highlights@.take(0) == Seq::<(usize, usize)>::empty());
    for i in 0..highlights.len()
        invariant
            result@ == clipped(highlights@.take(i as int), start, end),
    {
        assert(highlights@.take(i + 1).drop_last() == highlights@.take(i as int));
        let (left, right) = highlights[i];
        let from: usize = if left > start {
            left
        } else {
            start
        };
        let to: usize = if right < end {
            right
        } else {
            end
        };
        if from < to {
            result.push((from - start, to - start));
        }
    }
    assert(highlights@.take(highlights@.len() as int) == highlights@);
    result
}

/// A highlight of a part lies in the part and is not empty.
pub proof fn lemma_clipped(highlights: Seq<(usize, usize)>, start: usize, end: usize)
    ensures
        clipped(highlights, start, end).len() <= highlights.len(),
        forall|i: int|
            0 <= i < clipped(highlights, start, end).len() ==> (#[trigger] clipped(
                highlights,
                start,
                end,
            )[i]).0 < clipped(highlights, start, end)[i].1 && clipped(highlights, start, end)[i].1
                <= end - start,
    decreases highlights.len(),
{
    if highlights.len() > 0 {
        lemma_clipped(highlights.drop_last(), start, end);
        let before = clipped(highlights.drop_last(), start, end);
        let after = clipped(highlights, start, end);
        assert forall|i: int| 0 <= i < after.len() implies (#[trigger] after[i]).0 < after[i].1
            && after[i].1 <= end - start by {
            if i < before.len() {
                assert(before[i] == after[i]);
            }
        }
    }
}

/// What a link in a label is known by.
pub open spec fn link_id(index: nat, start: usize, end: usize) -> Seq<char> {
    "issue-link-"@ + decimal(index) + "-"@ + decimal(start as nat) + "-"@ + decimal(end as nat)
}

/// What a link in a label is known by.
fn make_link_id(index: usize, start: usize, end: usize) -> (result: String)
    ensures
        result@ == link_id(index as nat, start, end),
        result@ == "issue-link-"@ + decimal(index as nat) + "-"@ + decimal(start as nat) + "-"@
            + decimal(end as nat),
{
    let mut result = "issue-link-".to_owned();
    result.append(&number_text(index as u64));
    result.append("-");
    result.append(&number_text(start as u64));
    result.append("-");
    result.append(&number_text(end as u64));
    result
}

/// A part of a label that leads nowhere.
pub open spec fn plain_segment(
    text: Seq<char>,
    start: usize,
    end: usize,
    highlights: Seq<(usize, usize)>,
) -> Segment {
    Segment {
        text: between(text, start as int, end as int),
        start,
        end,
        link: None,
        highlights: clipped(highlights, start, end),
    }
}

/// Where the last of `links` ends.
pub open spec fn links_end(links: Seq<Link>) -> usize {
    if links.len() == 0 {
        0
    } else {
        links.last().end
    }
}

/// The parts of a label up to the end of the last of `links`.
pub open spec fn linked_segments(
    text: Seq<char>,
    links: Seq<Link>,
    highlights: Seq<(usize, usize)>,
) -> Seq<Segment>
    decreases links.len(),
{
    if links.len() == 0 {
        Seq::empty()
    } else {
        let rest = links.drop_last();
        let link = links.last();
        let before = linked_segments(text, rest, highlights);
        let padded = if links_end(rest) < link.start {
            before.push(plain_segment(text, links_end(rest), link.start, highlights))
        } else {
            before
        };
        padded.push(
            Segment {
                link: Some((link_id(rest.len(), link.start, link.end), link.url)),
                ..plain_segment(text, link.start, link.end, highlights)
            },
        )
    }
}

/// The parts of a label, whose text has `length` bytes.
pub open spec fn label_segments(
    text: Seq<char>,
    length: usize,
    links: Seq<Link>,
    highlights: Seq<(usize, usize)>,
) -> Seq<Segment> {
    if links.len() == 0 {
        seq![
            Segment {
                text,
                start: 0,
                end: usize::MAX,
                link: None,
                highlights: clipped(highlights, 0, usize::MAX),
            },
        ]
    } else {
        let linked = linked_segments(text, links, highlights);
        if links_end(links) < length {
            linked.push(plain_segment(text, links_end(links), length, highlights))
        } else {
            linked
        }
    }
}

/// Whether `links` stand in `text` one behind the other.
pub open spec fn in_row(links: Seq<Link>, text: Seq<char>) -> bool {
    &&& forall|i: int|
        0 <= i < links.len() ==> stands_in(
            text,
            (#[trigger] links[i]).start as int,
            links[i].end as int,
        )
    &&& forall|i: int, j: int|
        0 <= i < j < links.len() ==> (#[trigger] links[i]).end <= (#[trigger] links[j]).start
}

/// A part of a label that leads nowhere.
fn make_plain_segment(
    text: &str,
    start: usize,
    end: usize,
    highlights: &Vec<(usize, usize)>,
) -> (result: LabelSegment)
    requires
        stands_in(text@, start as int, end as int),
    ensures
        result.deep_view() == plain_segment(text@, start, end, highlights@),
{
    LabelSegment {
        text: slice(text, start, end),
        start,
        end,
        link: None,
        highlights: clip_highlights(highlights, start, end),
    }
}

/// The parts of a label whose links stand in its text one behind the other.
pub fn segment_label(text: &str, links: &Vec<IssueLink>, highlights: &Vec<(usize, usize)>) -> (result:
    Vec<LabelSegment>)
    requires
        in_row(links.deep_view(), text@),
    ensures
        encode_utf8(text@).len() <= usize::MAX,
        result.deep_view() == label_segments(
            text@,
            encode_utf8(text@).len() as usize,
            links.deep_view(),
            highlights@,
        ),
{
    let length: usize = text.as_bytes().len();
    let ghost models = links.deep_view();
    let mut segments: Vec<LabelSegment> = Vec::new();
    if links.len() == 0 {
        segments.push(
            LabelSegment {
                text: text.to_owned(),
                start: 0,
                end: usize::MAX,
                link: None,
                highlights: clip_highlights(highlights, 0, usize::MAX),
            },
        );
        assert(segments.deep_view() == label_segments(text@, length, models, highlights@));
        return segments;
    }
    let mut start: usize = 0;
    proof {
        lemma_between_all(text@);
        assert(models.take(0) == Seq::<Link>::empty());
        assert(segments.deep_view() == Seq::<Segment>::empty());
    }
    for ix in 0..links.len()
        invariant
            models == links.deep_view(),
            in_row(models, text@),
            length == encode_utf8(text@).len(),
            stands_in(text@, 0, length as int),
            start == links_end(models.take(ix as int)),
            ix == 0 ==> start == 0,
            ix > 0 ==> start == models[ix - 1].end,
            segments.deep_view() == linked_segments(text@, models.take(ix as int), highlights@),
    {
        let link = &links[ix];
        let ghost model = models[ix as int];
        proof {
            assert(model == link.deep_view());
            assert(models.take(ix + 1).drop_last() == models.take(ix as int));
            assert(models.take(ix + 1).last() == model);
            assert(stands_in(text@, model.start as int, model.end as int));
            if ix > 0 {
                assert(models[ix - 1].end <= model.start);
                assert(stands_in(
                    text@,
                    models[ix - 1].start as int,
                    models[ix - 1].end as int,
                ));
            }
        }
        let ghost before = segments.deep_view();
        if start < link.range.start {
            segments.push(make_plain_segment(text, start, link.range.start, highlights));
            assert(segments.deep_view() == before.push(
                plain_segment(text@, start, model.start, highlights@),
            ));
        }
        let ghost padded = segments.deep_view();
        let mut linked = make_plain_segment(text, link.range.start, link.range.end, highlights);
        linked.link = Some(
            LinkTarget {
                id: make_link_id(ix, link.range.start, link.range.end),
                url: link.url.clone(),
            },
        );
        let ghost segment = linked.deep_view();
        segments.push(linked);
        assert(segments.deep_view() == padded.push(segment));
        start = link.range.end;
    }
    proof {
        assert(models.take(models.len() as int) == models);
        assert(stands_in(
            text@,
            models[models.len() - 1].start as int,
            models[models.len() - 1].end as int,
        ));
    }
    let ghost before = segments.deep_view();
    if start < length {
        segments.push(make_plain_segment(text, start, length, highlights));
        assert(segments.deep_view() == before.push(
            plain_segment(text@, start, length, highlights@),
        ));
    }
    segments
}

/// The texts of `segments`, one after the other.
pub open spec fn joined_segments(segments: Seq<Segment>) -> Seq<char>
    decreases segments.len(),
{
    if segments.len() == 0 {
        Seq::empty()
    } else {
        joined_segments(segments.drop_last()) + segments.last().text
    }
}

/// One more part adds its text.
proof fn lemma_joined_push(segments: Seq<Segment>, segment: Segment)
    ensures
        joined_segments(segments.push(segment)) == joined_segments(segments) + segment.text,
{
    assert(segments.push(segment).drop_last() == segments);
}

/// The parts up to the end of the last link say what stands up to there.
proof fn lemma_linked_segments_join(
    text: Seq<char>,
    links: Seq<Link>,
    highlights: Seq<(usize, usize)>,
)
    requires
        in_row(links, text),
    ensures
        stands_in(text, 0, links_end(links) as int),
        joined_segments(linked_segments(text, links, highlights)) == between(
            text,
            0,
            links_end(links) as int,
        ),
    decreases links.len(),
{
    lemma_between_all(text);
    if links.len() == 0 {
        encode_utf8_valid_utf8(text);
        assert(encode_utf8(text).subrange(0, 0) == Seq::<u8>::empty());
        assert(between(text, 0, 0) == Seq::<char>::empty());
    } else {
        let rest = links.drop_last();
        let link = links[links.len() - 1];
        assert(in_row(rest, text)) by {
            assert forall|i: int| 0 <= i < rest.len() implies stands_in(
                text,
                (#[trigger] rest[i]).start as int,
                rest[i].end as int,
            ) by {
                assert(rest[i] == links[i]);
            }
            assert forall|i: int, j: int| 0 <= i < j < rest.len() implies (#[trigger] rest[i]).end
                <= (#[trigger] rest[j]).start by {
                assert(links[i].end <= links[j].start);
            }
        }
        lemma_linked_segments_join(text, rest, highlights);
        assert(stands_in(text, link.start as int, link.end as int));
        if rest.len() > 0 {
            assert(links[links.len() - 2].end <= link.start);
        }
        let from = links_end(rest);
        let before = linked_segments(text, rest, highlights);
        lemma_between_joins(text, 0, from as int, link.start as int);
        lemma_between_joins(text, 0, link.start as int, link.end as int);
        let linked = Segment {
            link: Some((link_id(rest.len(), link.start, link.end), link.url)),
            ..plain_segment(text, link.start, link.end, highlights)
        };
        if from < link.start {
            let plain = plain_segment(text, from, link.start, highlights);
            lemma_joined_push(before, plain);
            lemma_joined_push(before.push(plain), linked);
        } else {
            lemma_joined_push(before, linked);
        }
    }
}

/// The parts of a label say what the label says.
pub proof fn lemma_segments_join(
    text: Seq<char>,
    length: usize,
    links: Seq<Link>,
    highlights: Seq<(usize, usize)>,
)
    requires
        in_row(links, text),
        length == encode_utf8(text).len(),
    ensures
        joined_segments(label_segments(text, length, links, highlights)) == text,
{
    lemma_between_all(text);
    if links.len() == 0 {
        let all = label_segments(text, length, links, highlights);
        assert(all == Seq::<Segment>::empty().push(all[0]));
        lemma_joined_push(Seq::empty(), all[0]);
        assert(Seq::<char>::empty() + text == text);
    } else {
        lemma_linked_segments_join(text, links, highlights);
        let end = links_end(links);
        lemma_between_joins(text, 0, end as int, length as int);
        if end < length {
            lemma_joined_push(
                linked_segments(text, links, highlights),
                plain_segment(text, end, length, highlights),
            );
        }
    }
}

/// A part of a text that is to be escaped, and the link around it if there is one.
#[derive(Debug, PartialEq, Eq)]
pub struct MarkdownPiece {
    pub text: String,
    pub url: Option<String>,
}

/// What a `MarkdownPiece` holds.
#[verifier::ext_equal]
pub struct Piece {
    pub text: Seq<char>,
    pub url: Option<Seq<char>>,
}

impl DeepView for MarkdownPiece {
    type V = Piece;

    open spec fn deep_view(&self) -> Piece {
        Piece { text: self.text@, url: self.url.deep_view() }
    }
}

/// The pieces of `text` up to the end of the last of `links`: before each link what
/// stands between it and the one before, then the link.
pub open spec fn linked_pieces(text: Seq<char>, links: Seq<Link>) -> Seq<Piece>
    decreases links.len(),
{
    if links.len() == 0 {
        Seq::empty()
    } else {
        let rest = links.drop_last();
        let link = links.last();
        linked_pieces(text, rest).push(
            Piece { text: between(text, links_end(rest) as int, link.start as int), url: None },
        ).push(
            Piece {
                text: between(text, link.start as int, link.end as int),
                url: Some(link.url),
            },
        )
    }
}

/// The pieces of `text`.
pub open spec fn markdown_pieces(text: Seq<char>, links: Seq<Link>) -> Seq<Piece> {
    linked_pieces(text, links).push(
        Piece {
            text: between(text, links_end(links) as int, encode_utf8(text).len() as int),
            url: None,
        },
    )
}

/// The pieces of a text whose links stand in it one behind the other.
pub fn cut_markdown(text: &str, links: &Vec<IssueLink>) -> (result: Vec<MarkdownPiece>)
    requires
        in_row(links.deep_view(), text@),
    ensures
        result.deep_view() == markdown_pieces(text@, links.deep_view()),
{
    let length: usize = text.as_bytes().len();
    let ghost models = links.deep_view();
    let mut pieces: Vec<MarkdownPiece> = Vec::new();
    let mut start: usize = 0;
    proof {
        lemma_between_all(text@);
        assert(models.take(0) == Seq::<Link>::empty());
        assert(pieces.deep_view() == Seq::<Piece>::empty());
    }
    for ix in 0..links.len()
        invariant
            models == links.deep_view(),
            in_row(models, text@),
            length == encode_utf8(text@).len(),
            stands_in(text@, 0, length as int),
            start == links_end(models.take(ix as int)),
            ix == 0 ==> start == 0,
            ix > 0 ==> start == models[ix - 1].end,
            pieces.deep_view() == linked_pieces(text@, models.take(ix as int)),
    {
        let link = &links[ix];
        let ghost model = models[ix as int];
        proof {
            assert(model == link.deep_view());
            assert(models.take(ix + 1).drop_last() == models.take(ix as int));
            assert(models.take(ix + 1).last() == model);
            assert(stands_in(text@, model.start as int, model.end as int));
            if ix > 0 {
                assert(models[ix - 1].end <= model.start);
                assert(stands_in(
                    text@,
                    models[ix - 1].start as int,
                    models[ix - 1].end as int,
                ));
            }
        }
        let ghost before = pieces.deep_view();
        let between_links = MarkdownPiece {
            text: slice(text, start, link.range.start),
            url: None,
        };
        let linked = MarkdownPiece {
            text: slice(text, link.range.start, link.range.end),
            url: Some(link.url.clone()),
        };
        let ghost first = between_links.deep_view();
        let ghost second = linked.deep_view();
        pieces.push(between_links);
        assert(pieces.deep_view() == before.push(first));
        pieces.push(linked);
        assert(pieces.deep_view() == before.push(first).push(second));
        start = link.range.end;
    }
    proof {
        assert(models.take(models.len() as int) == models);
        if models.len() > 0 {
            assert(stands_in(
                text@,
                models[models.len() - 1].start as int,
                models[models.len() - 1].end as int,
            ));
        }
    }
    let ghost before = pieces.deep_view();
    let last = MarkdownPiece { text: slice(text, start, length), url: None };
    let ghost model = last.deep_view();
    pieces.push(last);
    assert(pieces.deep_view() == before.push(model));
    pieces
}

/// The texts of `pieces`, one after the other.
pub open spec fn joined_pieces(pieces: Seq<Piece>) -> Seq<char>
    decreases pieces.len(),
{
    if pieces.len() == 0 {
        Seq::empty()
    } else {
        joined_pieces(pieces.drop_last()) + pieces.last().text
    }
}

/// One more piece adds its text.
proof fn lemma_pieces_push(pieces: Seq<Piece>, piece: Piece)
    ensures
        joined_pieces(pieces.push(piece)) == joined_pieces(pieces) + piece.text,
{
    assert(pieces.push(piece).drop_last() == pieces);
}

/// The pieces up to the end of the last link say what stands up to there.
proof fn lemma_linked_pieces_join(text: Seq<char>, links: Seq<Link>)
    requires
        in_row(links, text),
    ensures
        stands_in(text, 0, links_end(links) as int),
        joined_pieces(linked_pieces(text, links)) == between(text, 0, links_end(links) as int),
    decreases links.len(),
{
    lemma_between_all(text);
    if links.len() == 0 {
        encode_utf8_valid_utf8(text);
        assert(encode_utf8(text).subrange(0, 0) == Seq::<u8>::empty());
        assert(between(text, 0, 0) == Seq::<char>::empty());
    } else {
        let rest = links.drop_last();
        let link = links[links.len() - 1];
        assert(in_row(rest, text)) by {
            assert forall|i: int| 0 <= i < rest.len() implies stands_in(
                text,
                (#[trigger] rest[i]).start as int,
                rest[i].end as int,
            ) by {
                assert(rest[i] == links[i]);
            }
            assert forall|i: int, j: int| 0 <= i < j < rest.len() implies (#[trigger] rest[i]).end
                <= (#[trigger] rest[j]).start by {
                assert(links[i].end <= links[j].start);
            }
        }
        lemma_linked_pieces_join(text, rest);
        assert(stands_in(text, link.start as int, link.end as int));
        if rest.len() > 0 {
            assert(links[links.len() - 2].end <= link.start);
        }
        let from = links_end(rest);
        let before = linked_pieces(text, rest);
        lemma_between_joins(text, 0, from as int, link.start as int);
        lemma_between_joins(text, 0, link.start as int, link.end as int);
        let first = Piece { text: between(text, from as int, link.start as int), url: None };
        let second = Piece {
            text: between(text, link.start as int, link.end as int),
            url: Some(link.url),
        };
        lemma_pieces_push(before, first);
        lemma_pieces_push(before.push(first), second);
    }
}

/// The pieces of a text say what the text says: linking changes nothing of it.
pub proof fn lemma_pieces_join(text: Seq<char>, links: Seq<Link>)
    requires
        in_row(links, text),
    ensures
        joined_pieces(markdown_pieces(text, links)) == text,
{
    lemma_between_all(text);
    lemma_linked_pieces_join(text, links);
    let end = links_end(links);
    let length = encode_utf8(text).len() as int;
    lemma_between_joins(text, 0, end as int, length);
    lemma_pieces_push(
        linked_pieces(text, links),
        Piece { text: between(text, end as int, length), url: None },
    );
}

/// A piece as it is written, whose text is escaped.
pub open spec fn written_piece(piece: Piece) -> Seq<char> {
    match piece.url {
        None => piece.text,
        Some(url) => "["@ + piece.text + "](<"@ + url + ">)"@,
    }
}

/// Pieces as they are written, whose texts are escaped.
pub open spec fn written_pieces(pieces: Seq<Piece>) -> Seq<char>
    decreases pieces.len(),
{
    if pieces.len() == 0 {
        Seq::empty()
    } else {
        written_pieces(pieces.drop_last()) + written_piece(pieces.last())
    }
}

/// Pieces as they are written, whose texts are escaped.
pub fn write_pieces(pieces: &Vec<MarkdownPiece>) -> (result: String)
    ensures
        result@ == written_pieces(pieces.deep_view()),
{
    let ghost models = pieces.deep_view();
    let mut result = String::new();
    assert(models.take(0) == Seq::<Piece>::empty());
    for i in 0..pieces.len()
        invariant
            models == pieces.deep_view(),
            result@ == written_pieces(models.take(i as int)),
    {
        proof {
            assert(models.take(i + 1).drop_last() == models.take(i as int));
            assert(models.take(i + 1).last() == pieces[i as int].deep_view());
        }
        let ghost before = result@;
        match &pieces[i].url {
            None => result.append(&pieces[i].text),
            Some(url) => {
                let mut link = "[".to_owned();
                link.append(&pieces[i].text);
                link.append("](<");
                link.append(url);
                link.append(">)");
                result.append(&link);
            },
        }
        assert(result@ == before + written_piece(models[i as int]));
    }
    assert(models.take(models.len() as int) == models);
    result
}

/// Whether URLs that stand in `text` stand in it one behind the other.
pub open spec fn proper(raw: Seq<Link>, text: Seq<char>) -> bool {
    &&& in_row(raw, text)
    &&& forall|i: int|
        0 <= i < raw.len() ==> (#[trigger] raw[i]).kind == IssueLinkKind::RawUrl
}

/// Whether URLs that stand in a text stand in it one behind the other.
pub fn are_proper(raw: &Vec<RawLink>, text: &str) -> (result: bool)
    ensures
        result == proper(raw.deep_view(), text@),
{
    let ghost models = raw.deep_view();
    let length: usize = text.as_bytes().len();
    let mut end: usize = 0;
    for i in 0..raw.len()
        invariant
            models == raw.deep_view(),
            length == encode_utf8(text@).len(),
            i == 0 ==> end == 0,
            i > 0 ==> end == models[i - 1].end,
            proper(models.take(i as int), text@),
    {
        let ghost model = models[i as int];
        assert(model == raw[i as int].deep_view());
        let range = &raw[i].range;
        if !(end <= range.start && range.start <= range.end && range.end <= length
            && text.is_char_boundary(range.start) && text.is_char_boundary(range.end)) {
            proof {
                if proper(models, text@) {
                    assert(stands_in(text@, models[i as int].start as int, model.end as int));
                    if i > 0 {
                        assert(models[i - 1].end <= models[i as int].start);
                    }
                }
            }
            return false;
        }
        end = range.end;
        proof {
            let now = models.take(i + 1);
            let before = models.take(i as int);
            assert forall|j: int| 0 <= j < now.len() implies stands_in(
                text@,
                (#[trigger] now[j]).start as int,
                now[j].end as int,
            ) && now[j].kind == IssueLinkKind::RawUrl by {
                if j < i {
                    assert(before[j] == now[j]);
                    assert(stands_in(text@, before[j].start as int, before[j].end as int));
                    assert(before[j].kind == IssueLinkKind::RawUrl);
                }
            }
            assert forall|j: int, k: int| 0 <= j < k < now.len() implies (#[trigger] now[j]).end
                <= (#[trigger] now[k]).start by {
                if k < i {
                    assert(before[j].end <= before[k].start);
                } else if j < i - 1 {
                    assert(before[j].end <= before[i - 1].start);
                    assert(stands_in(
                        text@,
                        before[i - 1].start as int,
                        before[i - 1].end as int,
                    ));
                }
            }
        }
    }
    assert(models.take(models.len() as int) == models);
    true
}

/// All links of a text whose own URLs are proper stand in it one behind the other.
proof fn lemma_all_links_in_row(raw: Seq<Link>, rules: Seq<CompiledRule>, text: Seq<char>)
    requires
        proper(raw, text),
        all_well_placed(with_rules(raw, rules, text), text),
    ensures
        in_row(links_of(raw, rules, text), text),
{
    let before = |a: Link, b: Link| a.start < b.start;
    let follows = |a: Link, b: Link| a.end <= b.start;
    let stands = |link: Link| stands_in(text, link.start as int, link.end as int);
    let holds = |a: Link, b: Link| apart(a, b);
    let found = with_rules(raw, rules, text);
    let links = links_of(raw, rules, text);
    assert forall|i: int, j: int| 0 <= i < j < raw.len() implies holds(
        #[trigger] raw[i],
        #[trigger] raw[j],
    ) && holds(raw[j], raw[i]) by {
        assert(raw[i].kind == IssueLinkKind::RawUrl);
        assert(raw[j].kind == IssueLinkKind::RawUrl);
    }
    lemma_rules_apart(raw, rules, text);
    lemma_earlier_links_stay(raw, Seq::empty(), rules, text);
    assert(Seq::<CompiledRule>::empty() + rules == rules);
    assert(with_rules(raw, Seq::empty(), text) == raw);
    lemma_only_issues_found(raw, rules, text);
    assert forall|i: int| 0 <= i < found.len() implies stands(#[trigger] found[i]) by {
        assert(well_placed(found[i], text));
        if i < raw.len() {
            assert(found.take(raw.len() as int)[i] == raw[i]);
            assert(stands_in(text, raw[i].start as int, raw[i].end as int));
        } else {
            assert(found[i].kind == IssueLinkKind::Issue);
        }
    }
    assert forall|i: int, j: int| 0 <= i < j < found.len() implies if before(
        #[trigger] found[j],
        #[trigger] found[i],
    ) {
        follows(found[j], found[i])
    } else {
        follows(found[i], found[j])
    } by {
        assert(holds(found[i], found[j]));
        assert(stands(found[i]));
        assert(stands(found[j]));
        if j < raw.len() {
            assert(found.take(raw.len() as int)[i] == raw[i]);
            assert(found.take(raw.len() as int)[j] == raw[j]);
            assert(raw[i].end <= raw[j].start);
        } else {
            assert(found[j].kind == IssueLinkKind::Issue);
            assert(well_placed(found[j], text));
        }
    }
    assert(orders(before));
    lemma_sorted_successively(found, before, follows);
    lemma_sorted_all(found, before, stands);
    assert forall|i: int| 0 <= i < links.len() implies stands_in(
        text,
        (#[trigger] links[i]).start as int,
        links[i].end as int,
    ) by {
        assert(stands(links[i]));
    }
    assert forall|i: int, j: int| 0 <= i < j < links.len() implies (#[trigger] links[i]).end
        <= (#[trigger] links[j]).start by {
        assert(follows(links[i], links[j]));
    }
}

/// What rules find besides other links leads to issues.
proof fn lemma_only_issues_found(links: Seq<Link>, rules: Seq<CompiledRule>, text: Seq<char>)
    ensures
        with_rules(links, rules, text).len() >= links.len(),
        forall|i: int|
            links.len() <= i < with_rules(links, rules, text).len() ==> (#[trigger] with_rules(
                links,
                rules,
                text,
            )[i]).kind == IssueLinkKind::Issue,
    decreases rules.len(),
{
    if rules.len() > 0 {
        lemma_only_issues_found(links, rules.drop_last(), text);
        let before = with_rules(links, rules.drop_last(), text);
        lemma_only_issues_matched(before, found_by(rules.last(), text));
        lemma_matches_extend(before, found_by(rules.last(), text));
        let after = with_rules(links, rules, text);
        assert forall|i: int| links.len() <= i < after.len() implies (#[trigger] after[i]).kind
            == IssueLinkKind::Issue by {
            if i < before.len() {
                assert(after.take(before.len() as int)[i] == before[i]);
            }
        }
    }
}

proof fn lemma_only_issues_matched(links: Seq<Link>, found: Seq<Match>)
    ensures
        with_matches(links, found).len() >= links.len(),
        forall|i: int|
            links.len() <= i < with_matches(links, found).len() ==> (#[trigger] with_matches(
                links,
                found,
            )[i]).kind == IssueLinkKind::Issue,
    decreases found.len(),
{
    if found.len() > 0 {
        lemma_only_issues_matched(links, found.drop_last());
        let before = with_matches(links, found.drop_last());
        let after = with_matches(links, found);
        assert forall|i: int| links.len() <= i < after.len() implies (#[trigger] after[i]).kind
            == IssueLinkKind::Issue by {
            if i < before.len() {
                assert(after[i] == before[i]);
            }
        }
    }
}

/// The links that lead to issues stand in the text one behind the other.
proof fn lemma_issue_links_in_row(raw: Seq<Link>, rules: Seq<CompiledRule>, text: Seq<char>)
    requires
        forall|i: int|
            0 <= i < raw.len() ==> (#[trigger] raw[i]).kind == IssueLinkKind::RawUrl,
        all_well_placed(with_rules(raw, rules, text), text),
    ensures
        in_row(issue_links_of(raw, rules, text), text),
{
    let before = |a: Link, b: Link| a.start < b.start;
    let is_issue = |link: Link| link.kind == IssueLinkKind::Issue;
    let good = |link: Link| well_placed(link, text);
    let all = links_of(raw, rules, text);
    lemma_links_in_order(raw, rules, text);
    assert forall|i: int| 0 <= i < with_rules(raw, rules, text).len() implies good(
        #[trigger] with_rules(raw, rules, text)[i],
    ) by {
        assert(well_placed(with_rules(raw, rules, text)[i], text));
    }
    lemma_sorted_all(with_rules(raw, rules, text), before, good);
    assert forall|i: int| 0 <= i < all.len() implies well_placed(#[trigger] all[i], text) by {
        assert(good(all[i]));
    }
    lemma_issues_in_row(all, text);
}

proof fn lemma_issues_in_row(all: Seq<Link>, text: Seq<char>)
    requires
        in_order(all, |a: Link, b: Link| a.start < b.start),
        pairwise(all, |a: Link, b: Link| apart(a, b)),
        all_well_placed(all, text),
    ensures
        in_row(all.filter(|link: Link| link.kind == IssueLinkKind::Issue), text),
    decreases all.len(),
{
    reveal(Seq::filter);
    let is_issue = |link: Link| link.kind == IssueLinkKind::Issue;
    let before = |a: Link, b: Link| a.start < b.start;
    let holds = |a: Link, b: Link| apart(a, b);
    if all.len() > 0 {
        let rest = all.drop_last();
        let last = all[all.len() - 1];
        assert forall|i: int, j: int| 0 <= i < j < rest.len() implies !before(
            #[trigger] rest[j],
            #[trigger] rest[i],
        ) by {
            assert(!before(all[j], all[i]));
        }
        assert forall|i: int, j: int| 0 <= i < j < rest.len() implies holds(
            #[trigger] rest[i],
            #[trigger] rest[j],
        ) && holds(rest[j], rest[i]) by {
            assert(holds(all[i], all[j]));
        }
        assert forall|i: int| 0 <= i < rest.len() implies well_placed(#[trigger] rest[i], text) by {
            assert(well_placed(all[i], text));
        }
        lemma_issues_in_row(rest, text);
        let kept = rest.filter(is_issue);
        let issues = all.filter(is_issue);
        assert(well_placed(all[all.len() - 1], text));
        if is_issue(last) {
            assert(issues == kept.push(last));
            assert forall|i: int, j: int| 0 <= i < j < issues.len() implies (#[trigger] issues[i]).end
                <= (#[trigger] issues[j]).start by {
                if j < kept.len() {
                    assert(kept[i].end <= kept[j].start);
                } else {
                    assert(kept.contains(kept[i]));
                    rest.lemma_filter_contains_rev(is_issue, kept[i]);
                    let k = choose|k: int| 0 <= k < rest.len() && rest[k] == kept[i];
                    rest.lemma_filter_pred(is_issue, i);
                    assert(holds(all[k], all[all.len() - 1]));
                    assert(!before(all[all.len() - 1], all[k]));
                    assert(well_placed(all[k], text));
                }
            }
            assert forall|i: int| 0 <= i < issues.len() implies stands_in(
                text,
                (#[trigger] issues[i]).start as int,
                issues[i].end as int,
            ) by {
                if i < kept.len() {
                    assert(stands_in(text, kept[i].start as int, kept[i].end as int));
                }
            }
        } else {
            assert(issues == kept);
        }
    }
}

impl IssueLinkingRules {
    /// The rules that configured rules become in use without any variables.
    pub fn new(rules: &Vec<IssueLinkingRule>) -> (result: Self)
        ensures
            result.rules.deep_view() == compiled_rules(rules.deep_view(), no_variables()),
    {
        Self::new_with_variables(rules, &IssueUrlVariables::default())
    }

    /// The rules that configured rules become in use.
    pub fn new_with_variables(rules: &Vec<IssueLinkingRule>, variables: &IssueUrlVariables) -> (result:
        Self)
        ensures
            result.rules.deep_view() == compiled_rules(rules.deep_view(), variables.deep_view()),
    {
        let ghost models = rules.deep_view();
        let mut compiled: Vec<CompiledIssueLinkingRule> = Vec::new();
        assert(models.take(0) == Seq::<Rule>::empty());
        assert(compiled.deep_view() == Seq::<CompiledRule>::empty());
        for i in 0..rules.len()
            invariant
                models == rules.deep_view(),
                compiled.deep_view() == compiled_rules(
                    models.take(i as int),
                    variables.deep_view(),
                ),
        {
            let ghost before = compiled.deep_view();
            proof {
                assert(models.take(i + 1).drop_last() == models.take(i as int));
                assert(models.take(i + 1).last() == rules[i as int].deep_view());
            }
            let valid = is_valid_pattern(&rules[i].issue_regex);
            if let Some(rule) = compile_rule(&rules[i], valid, variables) {
                let ghost model = rule.deep_view();
                compiled.push(rule);
                assert(compiled.deep_view() == before.push(model));
            }
        }
        assert(models.take(models.len() as int) == models);
        IssueLinkingRules { rules: compiled }
    }

    /// The rules in use for a repository: those configured for its project, if it is
    /// part of one, or else those configured for all.
    pub fn for_repository(
        project_rules: Option<Vec<IssueLinkingRule>>,
        global_rules: Vec<IssueLinkingRule>,
        remote_url: Option<&str>,
        provider: Option<GitProvider>,
    ) -> (result: Self)
        ensures
            result.rules.deep_view() == compiled_rules(
                match project_rules {
                    Some(rules) => rules.deep_view(),
                    None => global_rules.deep_view(),
                },
                match remote_url.deep_view() {
                    None => no_variables(),
                    Some(url) => remote_variables(
                        url,
                        host_of_remote(url, url_host(url)),
                        provider,
                        match provider {
                            Some(provider) => url_host(provider.base_url@),
                            None => None,
                        },
                    ),
                },
            ),
    {
        let rules = match project_rules {
            Some(rules) => rules,
            None => global_rules,
        };
        let variables = IssueUrlVariables::from_remote_url(remote_url, provider);
        Self::new_with_variables(&rules, &variables)
    }

    /// The links of a text in which the URLs `raw` stand, in the order of the rules
    /// that found them.
    fn found_links(&self, text: &str, raw: Vec<RawLink>) -> (result: Vec<IssueLink>)
        ensures
            result.deep_view() == with_rules(raw.deep_view(), self.rules.deep_view(), text@),
            all_well_placed(
                with_rules(raw.deep_view(), self.rules.deep_view(), text@),
                text@,
            ),
    {
        let ghost start = raw.deep_view();
        let ghost models = self.rules.deep_view();
        let mut links = raw_url_links(raw);
        proof {
            assert(models.take(0) == Seq::<CompiledRule>::empty());
            assert forall|i: int| 0 <= i < start.len() implies well_placed(
                #[trigger] start[i],
                text@,
            ) by {
                assert(start[i] == raw[i].deep_view());
            }
        }
        for i in 0..self.rules.len()
            invariant
                models == self.rules.deep_view(),
                links.deep_view() == with_rules(start, models.take(i as int), text@),
                all_well_placed(links.deep_view(), text@),
        {
            let ghost before = links.deep_view();
            proof {
                assert(models.take(i + 1).drop_last() == models.take(i as int));
                assert(models.take(i + 1).last() == self.rules[i as int].deep_view());
            }
            let found = find_issues(&self.rules[i], text);
            proof {
                lemma_matches_well_placed(before, found.deep_view(), text@);
            }
            links = add_matches(links, found);
        }
        assert(models.take(models.len() as int) == models);
        links
    }

    /// The links of a text in which the URLs `raw` stand, from left to right. A rule
    /// finds nothing where a URL stands or an earlier rule found something.
    pub fn links_for_text(&self, text: &str, raw: Vec<RawLink>) -> (result: Vec<IssueLink>)
        ensures
            result.deep_view() == links_of(raw.deep_view(), self.rules.deep_view(), text@),
    {
        stable_sort(self.found_links(text, raw))
    }

    /// The links of a text that lead to issues, from left to right. They stand in the
    /// text one behind the other.
    pub fn issue_links_for_text(&self, text: &str, raw: Vec<RawLink>) -> (result: Vec<IssueLink>)
        ensures
            result.deep_view() == issue_links_of(raw.deep_view(), self.rules.deep_view(), text@),
            in_row(result.deep_view(), text@),
    {
        let ghost start = raw.deep_view();
        let found = self.found_links(text, raw);
        proof {
            assert forall|i: int| 0 <= i < start.len() implies (#[trigger] start[i]).kind
                == IssueLinkKind::RawUrl by {
                assert(start[i] == raw[i].deep_view());
            }
            lemma_issue_links_in_row(start, self.rules.deep_view(), text@);
        }
        let links = stable_sort(found);
        let ghost models = links.deep_view();
        let ghost is_issue = |link: Link| link.kind == IssueLinkKind::Issue;
        let mut issues: Vec<IssueLink> = Vec::new();
        assert(issues.deep_view() == models.take(0).filter(is_issue)) by {
            reveal(Seq::filter);
        }
        for link in iter: links
            invariant
                iter.seq() == links@,
                models == links.deep_view(),
                is_issue == (|link: Link| link.kind == IssueLinkKind::Issue),
                issues.deep_view() == models.take(iter.index() as int).filter(is_issue),
        {
            let ghost before = issues.deep_view();
            let ghost n = iter.index() as int;
            let ghost model = link.deep_view();
            proof {
                reveal(Seq::filter);
                assert(models.take(n + 1).drop_last() == models.take(n));
                assert(models.take(n + 1).last() == model);
            }
            if link.kind == IssueLinkKind::Issue {
                issues.push(link);
                assert(issues.deep_view() == before.push(model));
            }
        }
        assert(models.take(models.len() as int) == models);
        issues
    }

    /// The parts of a label, with the links to issues in its text and what of it is
    /// highlighted.
    pub fn render_label(
        &self,
        text: &str,
        raw: Vec<RawLink>,
        highlights: &Vec<(usize, usize)>,
    ) -> (result: Vec<LabelSegment>)
        ensures
            encode_utf8(text@).len() <= usize::MAX,
            result.deep_view() == label_segments(
                text@,
                encode_utf8(text@).len() as usize,
                issue_links_of(raw.deep_view(), self.rules.deep_view(), text@),
                highlights@,
            ),
            joined_segments(result.deep_view()) == text@,
    {
        let links = self.issue_links_for_text(text, raw);
        let segments = segment_label(text, &links, highlights);
        proof {
            lemma_segments_join(
                text@,
                encode_utf8(text@).len() as usize,
                links.deep_view(),
                highlights@,
            );
        }
        segments
    }

    /// The pieces of a text in which the URLs `raw` stand, if a link in it leads to an
    /// issue.
    pub fn linked_markdown_source(&self, text: &str, raw: Vec<RawLink>) -> (result: Option<
        Vec<MarkdownPiece>,
    >)
        requires
            proper(raw.deep_view(), text@),
        ensures
            result is Some <==> exists|i: int|
                0 <= i < links_of(raw.deep_view(), self.rules.deep_view(), text@).len()
                    && (#[trigger] links_of(raw.deep_view(), self.rules.deep_view(), text@)[i]).kind
                    == IssueLinkKind::Issue,
            result matches Some(pieces) ==> {
                &&& pieces.deep_view() == markdown_pieces(
                    text@,
                    links_of(raw.deep_view(), self.rules.deep_view(), text@),
                )
                &&& joined_pieces(pieces.deep_view()) == text@
            },
    {
        let ghost start = raw.deep_view();
        let found = self.found_links(text, raw);
        proof {
            lemma_all_links_in_row(start, self.rules.deep_view(), text@);
        }
        let links = stable_sort(found);
        for i in 0..links.len()
            invariant
                links.deep_view() == links_of(start, self.rules.deep_view(), text@),
                start == raw.deep_view(),
                in_row(links.deep_view(), text@),
                forall|j: int|
                    0 <= j < i ==> (#[trigger] links.deep_view()[j]).kind != IssueLinkKind::Issue,
        {
            assert(links.deep_view()[i as int] == links[i as int].deep_view());
            if links[i].kind == IssueLinkKind::Issue {
                proof {
                    lemma_pieces_join(text@, links.deep_view());
                }
                return Some(cut_markdown(text, &links));
            }
        }
        None
    }
}

/// What was found is linked where it stands, unless it is empty, leads nowhere, or has
/// something in common with a link that was there or with something found before it.
/// In any case it has something in common with a link.
pub proof fn lemma_match_is_linked(links: Seq<Link>, found: Seq<Match>, i: int)
    requires
        0 <= i < found.len(),
        found[i].url is Some,
        found[i].start < found[i].end,
    ensures
        exists|k: int|
            0 <= k < with_matches(links, found).len() && ((#[trigger] with_matches(
                links,
                found,
            )[k]).start < found[i].end && found[i].start < with_matches(links, found)[k].end),
        exists|link: Link| #[trigger]
            with_matches(links, found).contains(link) && ((link.start == found[i].start && link.end
                == found[i].end && Some(link.url) == found[i].url && link.kind
                == IssueLinkKind::Issue) || (link.start < found[i].end && found[i].start < link.end
                && (links.contains(link) || exists|m: int|
                0 <= m < i && (#[trigger] found[m]).start == link.start && found[m].end == link.end
                    && found[m].url == Some(link.url)))),
    decreases found.len(),
{
    let rest = found.drop_last();
    let before = with_matches(links, rest);
    let after = with_matches(links, found);
    lemma_matches_extend(before, seq![found.last()]);
    if i < rest.len() {
        assert(rest[i] == found[i]);
        lemma_match_is_linked(links, rest, i);
        let link = choose|link: Link| #[trigger]
            before.contains(link) && ((link.start == rest[i].start && link.end == rest[i].end
                && Some(link.url) == rest[i].url && link.kind == IssueLinkKind::Issue) || (
            link.start < rest[i].end && rest[i].start < link.end && (links.contains(link) || exists|
                m: int,
            |
                0 <= m < i && (#[trigger] rest[m]).start == link.start && rest[m].end == link.end
                    && rest[m].url == Some(link.url))));
        let k = choose|k: int| 0 <= k < before.len() && before[k] == link;
        assert(after[k] == link);
        assert(after.contains(link));
        if exists|m: int|
            0 <= m < i && (#[trigger] rest[m]).start == link.start && rest[m].end == link.end
                && rest[m].url == Some(link.url) {
            let m = choose|m: int|
                0 <= m < i && (#[trigger] rest[m]).start == link.start && rest[m].end == link.end
                    && rest[m].url == Some(link.url);
            assert(found[m] == rest[m]);
        }
    } else {
        let last = found.last();
        if claimed(before, last.start, last.end) {
            let k = choose|k: int|
                0 <= k < before.len() && overlap(
                    (#[trigger] before[k]).start,
                    before[k].end,
                    last.start,
                    last.end,
                );
            let link = before[k];
            assert(after[k] == link);
            assert(after.contains(link));
            lemma_link_was_found(links, rest, k);
            if !links.contains(link) {
                let m = choose|m: int|
                    0 <= m < rest.len() && (#[trigger] rest[m]).start == link.start && rest[m].end
                        == link.end && rest[m].url == Some(link.url);
                assert(found[m] == rest[m]);
            }
        } else {
            let k = before.len() as int;
            assert(after[k].start == last.start);
            assert(after.contains(after[k]));
        }
    }
}

/// A link is one that was there, or it stands where something was found that is not
/// empty, leads where that leads, and has nothing in common with the links before it.
pub proof fn lemma_link_was_found(links: Seq<Link>, found: Seq<Match>, k: int)
    requires
        0 <= k < with_matches(links, found).len(),
    ensures
        k < links.len() ==> with_matches(links, found)[k] == links[k],
        k >= links.len() ==> {
            let link = with_matches(links, found)[k];
            &&& link.kind == IssueLinkKind::Issue
            &&& link.start < link.end
            &&& exists|m: int|
                0 <= m < found.len() && (#[trigger] found[m]).start == link.start && found[m].end
                    == link.end && found[m].url == Some(link.url)
            &&& forall|j: int|
                0 <= j < k ==> !((#[trigger] with_matches(links, found)[j]).start < link.end
                    && link.start < with_matches(links, found)[j].end)
        },
    decreases found.len(),
{
    lemma_matches_extend(links, found);
    if k < links.len() {
        assert(with_matches(links, found).take(links.len() as int)[k] == links[k]);
    } else if found.len() > 0 {
        let rest = found.drop_last();
        let before = with_matches(links, rest);
        let after = with_matches(links, found);
        if k < before.len() {
            lemma_link_was_found(links, rest, k);
            let link = before[k];
            assert(after[k] == link);
            let m = choose|m: int|
                0 <= m < rest.len() && (#[trigger] rest[m]).start == link.start && rest[m].end
                    == link.end && rest[m].url == Some(link.url);
            assert(found[m] == rest[m]);
            assert forall|j: int| 0 <= j < k implies !((#[trigger] after[j]).start < link.end
                && link.start < after[j].end) by {
                assert(after[j] == before[j]);
            }
        } else {
            let link = after[k];
            assert(found[found.len() - 1].start == link.start);
            assert forall|j: int| 0 <= j < k implies !((#[trigger] after[j]).start < link.end
                && link.start < after[j].end) by {
                assert(after[j] == before[j]);
                assert(!overlap(before[j].start, before[j].end, link.start, link.end));
            }
        }
    }
}

/// Every mention is linked: for every rule and every match of it in the text that is
/// not empty and whose expanded URL parses, the links of the text hold the link to that
/// URL in that place, or else one that has something in common with it and that came
/// first, as a URL that stands in the text, by an earlier rule or by an earlier match.
pub proof fn lemma_mention_is_linked(
    raw: Seq<Link>,
    rules: Seq<CompiledRule>,
    text: Seq<char>,
    r: int,
    k: int,
)
    requires
        0 <= r < rules.len(),
        0 <= k < match_ranges(rules[r].regex, text).len(),
        match_ranges(rules[r].regex, text)[k].0 < match_ranges(rules[r].regex, text)[k].1,
        parsed_url(expanded_match(rules[r].regex, text, k as usize, rules[r].issue_url)) is Ok,
    ensures
        ({
            let ranges = match_ranges(rules[r].regex, text);
            let (start, end) = ranges[k];
            let url = parsed_url(
                expanded_match(rules[r].regex, text, k as usize, rules[r].issue_url),
            )->Ok_0;
            exists|link: Link| #[trigger]
                links_of(raw, rules, text).contains(link) && ((link.start == start && link.end
                    == end && link.url == url && link.kind == IssueLinkKind::Issue) || (link.start
                    < end && start < link.end && (with_rules(
                    raw,
                    rules.take(r),
                    text,
                ).contains(link) || exists|m: int|
                    0 <= m < k && (#[trigger] ranges[m]).0 == link.start && ranges[m].1
                        == link.end)))
        }),
{
    let rule = rules[r];
    let ranges = match_ranges(rule.regex, text);
    let found = found_by(rule, text);
    let earlier = with_rules(raw, rules.take(r), text);
    let upto = rules.take(r + 1);
    assert(upto.drop_last() == rules.take(r));
    assert(upto.last() == rule);
    let here = with_rules(raw, upto, text);
    assert(here == with_matches(earlier, found));
    lemma_match_is_linked(earlier, found, k);
    let link = choose|link: Link| #[trigger]
        here.contains(link) && ((link.start == found[k].start && link.end == found[k].end && Some(
            link.url,
        ) == found[k].url && link.kind == IssueLinkKind::Issue) || (link.start < found[k].end
            && found[k].start < link.end && (earlier.contains(link) || exists|m: int|
            0 <= m < k && (#[trigger] found[m]).start == link.start && found[m].end == link.end
                && found[m].url == Some(link.url))));
    if exists|m: int|
        0 <= m < k && (#[trigger] found[m]).start == link.start && found[m].end == link.end
            && found[m].url == Some(link.url) {
        let m = choose|m: int|
            0 <= m < k && (#[trigger] found[m]).start == link.start && found[m].end == link.end
                && found[m].url == Some(link.url);
        assert(ranges[m].0 == link.start);
    }
    lemma_earlier_links_stay(raw, upto, rules.skip(r + 1), text);
    assert(upto + rules.skip(r + 1) == rules);
    let all = with_rules(raw, rules, text);
    let at = choose|at: int| 0 <= at < here.len() && here[at] == link;
    assert(all.take(here.len() as int)[at] == link);
    assert(all[at] == link);
    let before = |a: Link, b: Link| a.start < b.start;
    assert(orders(before));
    lemma_sorted_holds(all, before, link);
    assert(all.contains(link));
    assert(links_of(raw, rules, text).contains(link));
    assert(found[k].start == ranges[k].0 && found[k].end == ranges[k].1);
}

/// Nothing but a mention is linked: a link of a text is a URL that stands in it, or it
/// stands where some rule matches, is not empty, and leads to the URL that the rule's
/// URL becomes there.
pub proof fn lemma_link_is_a_mention(
    raw: Seq<Link>,
    rules: Seq<CompiledRule>,
    text: Seq<char>,
    link: Link,
)
    requires
        links_of(raw, rules, text).contains(link),
    ensures
        raw.contains(link) || (link.kind == IssueLinkKind::Issue && link.start < link.end && exists|
            r: int,
            k: int,
        |
            0 <= r < rules.len() && 0 <= k < match_ranges(rules[r].regex, text).len()
                && #[trigger] match_ranges(rules[r].regex, text)[k] == (link.start, link.end)
                && parsed_url(
                expanded_match(rules[r].regex, text, k as usize, rules[r].issue_url),
            ) == Ok::<_, Seq<char>>(link.url)),
{
    let before = |a: Link, b: Link| a.start < b.start;
    assert(orders(before));
    lemma_sorted_holds(with_rules(raw, rules, text), before, link);
    lemma_found_link(raw, rules, text, link);
}

proof fn lemma_found_link(raw: Seq<Link>, rules: Seq<CompiledRule>, text: Seq<char>, link: Link)
    requires
        with_rules(raw, rules, text).contains(link),
    ensures
        raw.contains(link) || (link.kind == IssueLinkKind::Issue && link.start < link.end && exists|
            r: int,
            k: int,
        |
            0 <= r < rules.len() && 0 <= k < match_ranges(rules[r].regex, text).len()
                && #[trigger] match_ranges(rules[r].regex, text)[k] == (link.start, link.end)
                && parsed_url(
                expanded_match(rules[r].regex, text, k as usize, rules[r].issue_url),
            ) == Ok::<_, Seq<char>>(link.url)),
    decreases rules.len(),
{
    if rules.len() > 0 {
        let rest = rules.drop_last();
        let rule = rules.last();
        let earlier = with_rules(raw, rest, text);
        let found = found_by(rule, text);
        let all = with_rules(raw, rules, text);
        let at = choose|at: int| 0 <= at < all.len() && all[at] == link;
        lemma_link_was_found(earlier, found, at);
        if at < earlier.len() {
            assert(earlier.contains(link));
            lemma_found_link(raw, rest, text, link);
            if !raw.contains(link) {
                let (r, k) = choose|r: int, k: int|
                    0 <= r < rest.len() && 0 <= k < match_ranges(rest[r].regex, text).len()
                        && #[trigger] match_ranges(rest[r].regex, text)[k] == (link.start, link.end)
                        && parsed_url(
                        expanded_match(rest[r].regex, text, k as usize, rest[r].issue_url),
                    ) == Ok::<_, Seq<char>>(link.url);
                assert(rules[r] == rest[r]);
                assert(match_ranges(rules[r].regex, text)[k] == (link.start, link.end));
            }
        } else {
            let m = choose|m: int|
                0 <= m < found.len() && (#[trigger] found[m]).start == link.start && found[m].end
                    == link.end && found[m].url == Some(link.url);
            let r = rules.len() - 1;
            assert(rules[r] == rule);
            assert(match_ranges(rules[r].regex, text)[m] == (link.start, link.end));
        }
    }
}

/// The links to issues are those links of a text that lead to issues.
pub proof fn lemma_issue_links(
    raw: Seq<Link>,
    rules: Seq<CompiledRule>,
    text: Seq<char>,
    link: Link,
)
    ensures
        issue_links_of(raw, rules, text).contains(link) <==> links_of(raw, rules, text).contains(
            link,
        ) && link.kind == IssueLinkKind::Issue,
{
    broadcast use vstd::seq_lib::group_filter_ensures;

    let is_issue = |link: Link| link.kind == IssueLinkKind::Issue;
    let all = links_of(raw, rules, text);
    let issues = all.filter(is_issue);
    if issues.contains(link) {
        let i = choose|i: int| 0 <= i < issues.len() && issues[i] == link;
        assert(is_issue(issues[i]));
        all.lemma_filter_contains_rev(is_issue, link);
    }
    if all.contains(link) && is_issue(link) {
        assert(issues.contains(link));
    }
}

/// A rule is in use exactly if it is enabled, its pattern is a regular expression and
/// its URL speaks of no variable without a value. Rules in use stand in the order in
/// which they are configured.
pub proof fn lemma_compiled_rules(rules: Seq<Rule>, rule: Rule, variables: Variables)
    ensures
        compiled_rules(Seq::empty(), variables).len() == 0,
        rule.enabled && valid_pattern(rule.issue_regex) && expanded_template(
            rule.issue_url,
            variables,
        ) is Some ==> compiled_rules(rules.push(rule), variables) == compiled_rules(
            rules,
            variables,
        ).push(
            CompiledRule {
                regex: rule.issue_regex,
                issue_url: expanded_template(rule.issue_url, variables)->0,
            },
        ),
        !(rule.enabled && valid_pattern(rule.issue_regex) && expanded_template(
            rule.issue_url,
            variables,
        ) is Some) ==> compiled_rules(rules.push(rule), variables) == compiled_rules(
            rules,
            variables,
        ),
{
    assert(rules.push(rule).drop_last() == rules);
}

/// Which variable is called what, and in which order they are put in: the one whose
/// name the name of another one starts with comes after it.
pub proof fn lemma_named_variables(variables: Variables)
    ensures
        named_variables(variables).len() == 10,
        named_variables(variables)[0] == ("GIT_REMOTE_URL"@, variables.git_remote_url),
        named_variables(variables)[1] == ("GIT_REMOTE_HOST"@, variables.git_remote_host),
        named_variables(variables)[2] == ("GIT_REMOTE_OWNER"@, variables.git_remote_owner),
        named_variables(variables)[3] == ("GIT_REMOTE_REPO"@, variables.git_remote_repo),
        named_variables(variables)[4] == ("GIT_PROVIDER_URL"@, variables.git_provider_url),
        named_variables(variables)[5] == ("GIT_PROVIDER"@, variables.git_provider),
        named_variables(variables)[6] == ("GITHUB_HOST"@, variables.github_host),
        named_variables(variables)[7] == ("GITHUB_BASE_URL"@, variables.github_base_url),
        named_variables(variables)[8] == ("GITHUB_ORG"@, variables.github_org),
        named_variables(variables)[9] == ("GITHUB_REPO"@, variables.github_repo),
{
}

/// Variables are put in one after the other: one that a template does not speak of
/// changes nothing; one that it speaks of, with or without braces, gives its value, and
/// there is no expansion if it has none.
pub proof fn lemma_with_variables(
    template: Seq<char>,
    variables: Seq<(Seq<char>, Option<Seq<char>>)>,
    name: Seq<char>,
    value: Option<Seq<char>>,
)
    ensures
        with_variables(template, Seq::empty()) == Some(template),
        with_variables(template, variables) is None ==> with_variables(
            template,
            variables.push((name, value)),
        ) is None,
        with_variables(template, variables) matches Some(so_far) ==> with_variables(
            template,
            variables.push((name, value)),
        ) == if holds(so_far, "${"@ + name + "}"@) || holds(so_far, "$"@ + name) {
            match value {
                None => None,
                Some(value) => Some(
                    replaced(replaced(so_far, "${"@ + name + "}"@, value), "$"@ + name, value),
                ),
            }
        } else {
            Some(so_far)
        },
{
    assert(variables.push((name, value)).drop_last() == variables);
}

/// The host of a remote in the form that SSH uses is what stands between the at sign
/// and the first colon.
pub proof fn lemma_ssh_host(host: Seq<char>, path: Seq<char>)
    requires
        !host.contains(':'),
    ensures
        ssh_host("git@"@ + host + seq![':'] + path) == Some(host),
        !begins(path, "git@"@) ==> ssh_host(path) is None,
{
    let remote = "git@"@ + host + seq![':'] + path;
    let rest = remote.skip("git@"@.len() as int);
    assert(remote.take("git@"@.len() as int) == "git@"@);
    assert(rest == host + seq![':'] + path);
    lemma_halves(rest, ':');
    assert(rest[host.len() as int] == ':');
    let (head, tail) = halves(rest, ':')->0;
    assert(rest == head + seq![':'] + tail);
    assert(rest[head.len() as int] == ':');
    if head.len() < host.len() {
        assert(host.contains(rest[head.len() as int]));
    }
    if host.len() < head.len() {
        assert(head.contains(rest[host.len() as int]));
    }
    assert(head == rest.take(head.len() as int));
    assert(host == rest.take(host.len() as int));
}

/// Of a part of a text exactly that is highlighted which is highlighted in the text.
pub proof fn lemma_clipped_covers(
    highlights: Seq<(usize, usize)>,
    start: usize,
    end: usize,
    at: int,
)
    requires
        0 <= at < end - start,
    ensures
        (exists|i: int|
            0 <= i < clipped(highlights, start, end).len() && (#[trigger] clipped(
                highlights,
                start,
                end,
            )[i]).0 <= at < clipped(highlights, start, end)[i].1) <==> (exists|i: int|
            0 <= i < highlights.len() && (#[trigger] highlights[i]).0 <= start + at
                < highlights[i].1),
    decreases highlights.len(),
{
    if highlights.len() > 0 {
        let rest = highlights.drop_last();
        let last = highlights[highlights.len() - 1];
        lemma_clipped_covers(rest, start, end, at);
        let before = clipped(rest, start, end);
        let after = clipped(highlights, start, end);
        assert(forall|i: int| 0 <= i < rest.len() ==> rest[i] == #[trigger] highlights[i]);
        assert(forall|i: int| 0 <= i < before.len() ==> before[i] == #[trigger] after[i]);
        if exists|i: int| 0 <= i < after.len() && (#[trigger] after[i]).0 <= at < after[i].1 {
            let i = choose|i: int|
                0 <= i < after.len() && (#[trigger] after[i]).0 <= at < after[i].1;
            if i < before.len() {
                assert(before[i].0 <= at < before[i].1);
                let j = choose|j: int|
                    0 <= j < rest.len() && (#[trigger] rest[j]).0 <= start + at < rest[j].1;
                assert(highlights[j] == rest[j]);
            } else {
                assert(highlights[highlights.len() - 1].0 <= start + at < last.1);
            }
        }
        if exists|i: int|
            0 <= i < highlights.len() && (#[trigger] highlights[i]).0 <= start + at
                < highlights[i].1 {
            let i = choose|i: int|
                0 <= i < highlights.len() && (#[trigger] highlights[i]).0 <= start + at
                    < highlights[i].1;
            if i < rest.len() {
                assert(rest[i].0 <= start + at < rest[i].1);
                let j = choose|j: int|
                    0 <= j < before.len() && (#[trigger] before[j]).0 <= at < before[j].1;
                assert(after[j] == before[j]);
            } else {
                assert(after[before.len() as int].0 <= at < after[before.len() as int].1);
            }
        }
    }
}

/// Every link of a label is a part of it, with what stands there, where it leads and
/// what of it is highlighted.
proof fn lemma_linked_segment(
    text: Seq<char>,
    links: Seq<Link>,
    highlights: Seq<(usize, usize)>,
    i: int,
)
    requires
        0 <= i < links.len(),
    ensures
        exists|part: Segment| #[trigger]
            linked_segments(text, links, highlights).contains(part) && part.start == links[i].start
                && part.end == links[i].end && part.text == between(
                text,
                links[i].start as int,
                links[i].end as int,
            ) && part.link == Some(
                (
                    "issue-link-"@ + decimal(i as nat) + "-"@ + decimal(links[i].start as nat)
                        + "-"@ + decimal(links[i].end as nat),
                    links[i].url,
                ),
            ) && part.highlights == clipped(highlights, links[i].start, links[i].end),
    decreases links.len(),
{
    let rest = links.drop_last();
    let all = linked_segments(text, links, highlights);
    if i < rest.len() {
        lemma_linked_segment(text, rest, highlights, i);
        let before = linked_segments(text, rest, highlights);
        let part = choose|part: Segment| #[trigger]
            before.contains(part) && part.start == rest[i].start && part.end == rest[i].end
                && part.text == between(text, rest[i].start as int, rest[i].end as int)
                && part.link == Some(
                (
                    "issue-link-"@ + decimal(i as nat) + "-"@ + decimal(rest[i].start as nat) + "-"@
                        + decimal(rest[i].end as nat),
                    rest[i].url,
                ),
            ) && part.highlights == clipped(highlights, rest[i].start, rest[i].end);
        let k = choose|k: int| 0 <= k < before.len() && before[k] == part;
        assert(all[k] == part);
        assert(all.contains(part));
    } else {
        let part = all[all.len() - 1];
        assert(part == all.last());
        assert(all.contains(part));
    }
}

/// Every link of a label is a part of it, with what stands there, where it leads and
/// what of it is highlighted.
pub proof fn lemma_link_is_a_segment(
    text: Seq<char>,
    length: usize,
    links: Seq<Link>,
    highlights: Seq<(usize, usize)>,
    i: int,
)
    requires
        0 <= i < links.len(),
    ensures
        exists|part: Segment| #[trigger]
            label_segments(text, length, links, highlights).contains(part) && part.start
                == links[i].start && part.end == links[i].end && part.text == between(
                text,
                links[i].start as int,
                links[i].end as int,
            ) && part.link == Some(
                (
                    "issue-link-"@ + decimal(i as nat) + "-"@ + decimal(links[i].start as nat)
                        + "-"@ + decimal(links[i].end as nat),
                    links[i].url,
                ),
            ) && part.highlights == clipped(highlights, links[i].start, links[i].end),
{
    lemma_linked_segment(text, links, highlights, i);
    let linked = linked_segments(text, links, highlights);
    let all = label_segments(text, length, links, highlights);
    let part = choose|part: Segment| #[trigger]
        linked.contains(part) && part.start == links[i].start && part.end == links[i].end
            && part.text == between(text, links[i].start as int, links[i].end as int) && part.link
            == Some(
            (
                "issue-link-"@ + decimal(i as nat) + "-"@ + decimal(links[i].start as nat) + "-"@
                    + decimal(links[i].end as nat),
                links[i].url,
            ),
        ) && part.highlights == clipped(highlights, links[i].start, links[i].end);
    let k = choose|k: int| 0 <= k < linked.len() && linked[k] == part;
    assert(all[k] == part);
    assert(all.contains(part));
}

/// A part of a label that leads somewhere is one of its links, and one that leads
/// nowhere says what stands where it says that it stands.
pub proof fn lemma_segment_is_a_link(
    text: Seq<char>,
    length: usize,
    links: Seq<Link>,
    highlights: Seq<(usize, usize)>,
    k: int,
)
    requires
        links.len() > 0,
        0 <= k < label_segments(text, length, links, highlights).len(),
    ensures
        ({
            let part = label_segments(text, length, links, highlights)[k];
            &&& part.text == between(text, part.start as int, part.end as int)
            &&& part.highlights == clipped(highlights, part.start, part.end)
            &&& part.link matches Some((id, url)) ==> exists|i: int|
                0 <= i < links.len() && (#[trigger] links[i]).start == part.start && links[i].end
                    == part.end && links[i].url == url
        }),
{
    let linked = linked_segments(text, links, highlights);
    if k < linked.len() {
        lemma_linked_part(text, links, highlights, k);
    }
}

proof fn lemma_linked_part(
    text: Seq<char>,
    links: Seq<Link>,
    highlights: Seq<(usize, usize)>,
    k: int,
)
    requires
        0 <= k < linked_segments(text, links, highlights).len(),
    ensures
        ({
            let part = linked_segments(text, links, highlights)[k];
            &&& part.text == between(text, part.start as int, part.end as int)
            &&& part.highlights == clipped(highlights, part.start, part.end)
            &&& part.link matches Some((id, url)) ==> exists|i: int|
                0 <= i < links.len() && (#[trigger] links[i]).start == part.start && links[i].end
                    == part.end && links[i].url == url
        }),
    decreases links.len(),
{
    if links.len() > 0 {
        let rest = links.drop_last();
        let before = linked_segments(text, rest, highlights);
        let part = linked_segments(text, links, highlights)[k];
        if k < before.len() {
            lemma_linked_part(text, rest, highlights, k);
            if let Some((id, url)) = part.link {
                let i = choose|i: int|
                    0 <= i < rest.len() && (#[trigger] rest[i]).start == part.start && rest[i].end
                        == part.end && rest[i].url == url;
                assert(links[i] == rest[i]);
            }
        } else if part.link is Some {
            assert(links[links.len() - 1].start == part.start);
        }
    }
}

/// The pieces of a text are, for each link, what stands between it and the one before
/// it, without a link, and then what the link covers, with where it leads; and at last
/// what stands behind all links.
pub proof fn lemma_markdown_pieces(text: Seq<char>, links: Seq<Link>, i: int)
    requires
        0 <= i <= links.len(),
    ensures
        markdown_pieces(text, links).len() == 2 * links.len() + 1,
        i < links.len() ==> {
            &&& markdown_pieces(text, links)[2 * i + 1].url == Some(links[i].url)
            &&& markdown_pieces(text, links)[2 * i + 1].text == between(
                text,
                links[i].start as int,
                links[i].end as int,
            )
        },
        markdown_pieces(text, links)[2 * i].url is None,
        markdown_pieces(text, links)[2 * i].text == between(
            text,
            if i == 0 {
                0
            } else {
                links[i - 1].end as int
            },
            if i == links.len() {
                encode_utf8(text).len() as int
            } else {
                links[i].start as int
            },
        ),
{
    lemma_linked_pieces(text, links, i);
}

proof fn lemma_linked_pieces(text: Seq<char>, links: Seq<Link>, i: int)
    requires
        0 <= i <= links.len(),
    ensures
        linked_pieces(text, links).len() == 2 * links.len(),
        i < links.len() ==> {
            &&& linked_pieces(text, links)[2 * i + 1].url == Some(links[i].url)
            &&& linked_pieces(text, links)[2 * i + 1].text == between(
                text,
                links[i].start as int,
                links[i].end as int,
            )
            &&& linked_pieces(text, links)[2 * i].url is None
            &&& linked_pieces(text, links)[2 * i].text == between(
                text,
                if i == 0 {
                    0
                } else {
                    links[i - 1].end as int
                },
                links[i].start as int,
            )
        },
    decreases links.len(),
{
    if links.len() > 0 {
        let rest = links.drop_last();
        if i < links.len() {
            lemma_linked_pieces(text, rest, i);
        } else {
            lemma_linked_pieces(text, rest, i - 1);
        }
    }
}

/// Pieces are written one after the other: one without a link as it is, one with a link
/// in brackets, with where it leads behind it.
pub proof fn lemma_written_pieces(pieces: Seq<Piece>, piece: Piece)
    ensures
        written_pieces(Seq::empty()) == Seq::<char>::empty(),
        written_pieces(pieces.push(piece)) == written_pieces(pieces) + match piece.url {
            None => piece.text,
            Some(url) => "["@ + piece.text + "](<"@ + url + ">)"@,
        },
{
    assert(pieces.push(piece).drop_last() == pieces);
}

/// A label without links is one part, which leads nowhere and says all of the label.
pub proof fn lemma_unlinked_label(
    text: Seq<char>,
    length: usize,
    highlights: Seq<(usize, usize)>,
)
    ensures
        label_segments(text, length, Seq::empty(), highlights).len() == 1,
        label_segments(text, length, Seq::empty(), highlights)[0].text == text,
        label_segments(text, length, Seq::empty(), highlights)[0].link is None,
        label_segments(text, length, Seq::empty(), highlights)[0].start == 0,
        label_segments(text, length, Seq::empty(), highlights)[0].highlights == clipped(
            highlights,
            0,
            usize::MAX,
        ),
{
}

/// Links stand in a row exactly if each stands between characters of the text and none
/// ends behind the start of one that comes after it.
pub proof fn lemma_in_row(links: Seq<Link>, text: Seq<char>)
    ensures
        in_row(links, text) <==> (forall|i: int|
            0 <= i < links.len() ==> stands_in(
                text,
                (#[trigger] links[i]).start as int,
                links[i].end as int,
            )) && (forall|i: int, j: int|
            0 <= i < j < links.len() ==> (#[trigger] links[i]).end <= (#[trigger] links[j]).start),
        proper(links, text) <==> in_row(links, text) && (forall|i: int|
            0 <= i < links.len() ==> (#[trigger] links[i]).kind == IssueLinkKind::RawUrl),
{
}

/// A template that speaks of one variable, in braces and once, becomes what stands
/// before it, its value, and what stands behind it. It has no expansion if the variable
/// has no value.
pub proof fn lemma_braced_variable(
    head: Seq<char>,
    tail: Seq<char>,
    variables: Variables,
    i: int,
)
    requires
        0 <= i < 10,
        !head.contains('$'),
        !tail.contains('$'),
        named_variables(variables)[i].1 matches Some(value) ==> !value.contains('$'),
    ensures
        ({
            let (name, value) = named_variables(variables)[i];
            expanded_template(head + ("${"@ + name + "}"@) + tail, variables) == match value {
                Some(value) => Some(head + value + tail),
                None => None,
            }
        }),
{
    let named = named_variables(variables);
    let (name, value) = named[i];
    let template = head + ("${"@ + name + "}"@) + tail;
    lemma_variable_names(variables);
    assert forall|j: int| 0 <= j < 10 && j != i implies with_variable(
        template,
        (#[trigger] named[j]).0,
        named[j].1,
    ) == Some(template) by {
        lemma_other_variable(head, name, tail, named[j].0, named[j].1);
    }
    lemma_before_variable(template, named, i);
    assert(named.take(i + 1).drop_last() == named.take(i));
    assert(named.take(i + 1).last() == (name, value));
    lemma_own_variable(head, name, tail, value);
    if value is None {
        lemma_first_missing(template, named, i + 1);
        assert(named.take(10) == named);
    } else {
        let expanded = head + value->0 + tail;
        assert(!expanded.contains('$'));
        lemma_plain_rest(template, expanded, named, i + 1);
    }
}

/// The names of variables hold neither dollar signs nor braces, and differ.
proof fn lemma_variable_names(variables: Variables)
    ensures
        forall|i: int|
            0 <= i < 10 ==> !(#[trigger] named_variables(variables)[i]).0.contains('$')
                && !named_variables(variables)[i].0.contains('}')
                && !named_variables(variables)[i].0.contains('{')
                && named_variables(variables)[i].0.len() > 0,
        forall|i: int, j: int|
            0 <= i < 10 && 0 <= j < 10 && i != j ==> (#[trigger] named_variables(variables)[i]).0
                != (#[trigger] named_variables(variables)[j]).0,
{
    reveal_strlit("GIT_REMOTE_URL");
    reveal_strlit("GIT_REMOTE_HOST");
    reveal_strlit("GIT_REMOTE_OWNER");
    reveal_strlit("GIT_REMOTE_REPO");
    reveal_strlit("GIT_PROVIDER_URL");
    reveal_strlit("GIT_PROVIDER");
    reveal_strlit("GITHUB_HOST");
    reveal_strlit("GITHUB_BASE_URL");
    reveal_strlit("GITHUB_ORG");
    reveal_strlit("GITHUB_REPO");
    let named = named_variables(variables);
    assert(named[0].0 == "GIT_REMOTE_URL"@);
    assert(named[0].0.len() == 14);
    assert(named[1].0 == "GIT_REMOTE_HOST"@);
    assert(named[1].0.len() == 15);
    assert(named[2].0 == "GIT_REMOTE_OWNER"@);
    assert(named[2].0.len() == 16);
    assert(named[3].0 == "GIT_REMOTE_REPO"@);
    assert(named[3].0.len() == 15);
    assert(named[4].0 == "GIT_PROVIDER_URL"@);
    assert(named[4].0.len() == 16);
    assert(named[5].0 == "GIT_PROVIDER"@);
    assert(named[5].0.len() == 12);
    assert(named[6].0 == "GITHUB_HOST"@);
    assert(named[6].0.len() == 11);
    assert(named[7].0 == "GITHUB_BASE_URL"@);
    assert(named[7].0.len() == 15);
    assert(named[8].0 == "GITHUB_ORG"@);
    assert(named[8].0.len() == 10);
    assert(named[9].0 == "GITHUB_REPO"@);
    assert(named[9].0.len() == 11);
    assert forall|i: int, j: int| 0 <= i < 10 && 0 <= j < 10 && i != j implies (
    #[trigger] named[i]).0 != (#[trigger] named[j]).0 by {
        assert("GIT_REMOTE_HOST"@[11] != "GIT_REMOTE_REPO"@[11]);
        assert("GIT_REMOTE_HOST"@[3] != "GITHUB_BASE_URL"@[3]);
        assert("GIT_REMOTE_OWNER"@[4] != "GIT_PROVIDER_URL"@[4]);
        assert("GIT_REMOTE_REPO"@[3] != "GITHUB_BASE_URL"@[3]);
        assert("GITHUB_HOST"@[7] != "GITHUB_REPO"@[7]);
    }
}

/// A template that speaks of one variable in braces does not speak of another.
proof fn lemma_other_variable(
    head: Seq<char>,
    name: Seq<char>,
    tail: Seq<char>,
    other: Seq<char>,
    value: Option<Seq<char>>,
)
    requires
        !head.contains('$'),
        !tail.contains('$'),
        !name.contains('$'),
        !name.contains('}'),
        !other.contains('}'),
        !other.contains('{'),
        other.len() > 0,
        name != other,
    ensures
        with_variable(head + ("${"@ + name + "}"@) + tail, other, value) == Some(
            head + ("${"@ + name + "}"@) + tail,
        ),
{
    reveal_strlit("${");
    reveal_strlit("$");
    reveal_strlit("}");
    let template = head + ("${"@ + name + "}"@) + tail;
    let at = head.len() as int;
    lemma_only_dollar(head, name, tail);
    if holds(template, braced(other)) {
        let k = choose|k: int|
            0 <= k <= template.len() && #[trigger] begins(template.skip(k), braced(other));
        let rest = template.skip(k);
        let taken = rest.take(braced(other).len() as int);
        assert(taken == braced(other));
        assert(taken[0] == '$');
        assert(template[k] == '$');
        assert(k == at);
        let n = if name.len() < other.len() {
            name.len() as int
        } else {
            other.len() as int
        };
        assert forall|q: int| 0 <= q < n implies name[q] == other[q] by {
            assert(taken[2 + q] == other[q]);
            assert(template[at + 2 + q] == name[q]);
        }
        if name.len() < other.len() {
            assert(template[at + 2 + name.len()] == '}');
            assert(taken[2 + name.len() as int] == other[name.len() as int]);
            assert(other.contains(other[name.len() as int]));
        } else if other.len() < name.len() {
            assert(taken[2 + other.len() as int] == '}');
            assert(template[at + 2 + other.len()] == name[other.len() as int]);
            assert(name.contains(name[other.len() as int]));
        } else {
            assert(name =~= other);
        }
    }
    if holds(template, unbraced(other)) {
        let k = choose|k: int|
            0 <= k <= template.len() && #[trigger] begins(template.skip(k), unbraced(other));
        let rest = template.skip(k);
        let taken = rest.take(unbraced(other).len() as int);
        assert(taken == unbraced(other));
        assert(taken[0] == '$');
        assert(template[k] == '$');
        assert(k == at);
        assert(template[at + 1] == '{');
        assert(taken[1] == other[0]);
        assert(other.contains(other[0]));
    }
}

/// The only dollar sign of a template that speaks of one variable stands where it does.
proof fn lemma_only_dollar(head: Seq<char>, name: Seq<char>, tail: Seq<char>)
    requires
        !head.contains('$'),
        !tail.contains('$'),
        !name.contains('$'),
    ensures
        forall|k: int|
            0 <= k < (head + ("${"@ + name + "}"@) + tail).len() && (#[trigger] (head + ("${"@ + name
                + "}"@) + tail)[k]) == '$' ==> k == head.len(),
{
    reveal_strlit("${");
    reveal_strlit("}");
    let template = head + ("${"@ + name + "}"@) + tail;
    assert forall|k: int| 0 <= k < template.len() && (#[trigger] template[k]) == '$' implies k
        == head.len() by {
        if k < head.len() {
            assert(head.contains(head[k]));
        } else if k >= head.len() + 2 && k < head.len() + 2 + name.len() {
            assert(name.contains(name[k - head.len() - 2]));
        } else if k >= head.len() + 3 + name.len() {
            assert(tail.contains(tail[k - head.len() - 3 - name.len()]));
        }
    }
}

/// A template that speaks of one variable in braces gets its value in that place.
proof fn lemma_own_variable(
    head: Seq<char>,
    name: Seq<char>,
    tail: Seq<char>,
    value: Option<Seq<char>>,
)
    requires
        !head.contains('$'),
        !tail.contains('$'),
        !name.contains('$'),
        name.len() > 0,
        value matches Some(value) ==> !value.contains('$'),
    ensures
        with_variable(head + ("${"@ + name + "}"@) + tail, name, value) == match value {
            Some(value) => Some(head + value + tail),
            None => None,
        },
{
    reveal_strlit("${");
    reveal_strlit("$");
    reveal_strlit("}");
    let template = head + ("${"@ + name + "}"@) + tail;
    let at = head.len() as int;
    let own = braced(name);
    lemma_only_dollar(head, name, tail);
    assert(template.skip(at).take(own.len() as int) == own);
    assert(begins(template.skip(at), own));
    assert(holds(template, own));
    if let Some(value) = value {
        assert forall|k: int| 0 <= k < at implies !begins(#[trigger] template.skip(k), own) by {
            if begins(template.skip(k), own) {
                assert(template.skip(k).take(own.len() as int)[0] == '$');
                assert(template[k] == '$');
            }
        }
        lemma_replaced(template, own, value, at);
        let rest = template.skip(at + own.len());
        assert(rest == tail);
        assert forall|k: int| 0 <= k < tail.len() implies !begins(#[trigger] tail.skip(k), own) by {
            if begins(tail.skip(k), own) {
                assert(tail.skip(k).take(own.len() as int)[0] == '$');
                assert(tail.contains(tail[k]));
            }
        }
        lemma_replaced(tail, own, value, tail.len() as int);
        assert(template.take(at) == head);
        let once = head + value + tail;
        assert(replaced(template, own, value) == once);
        let bare = unbraced(name);
        assert forall|k: int| 0 <= k < once.len() implies !begins(#[trigger] once.skip(k), bare) by {
            if begins(once.skip(k), bare) {
                assert(once.skip(k).take(bare.len() as int)[0] == '$');
                assert(once[k] == '$');
                if k < head.len() {
                    assert(head.contains(head[k]));
                } else if k < head.len() + value.len() {
                    assert(value.contains(value[k - head.len()]));
                } else {
                    assert(tail.contains(tail[k - head.len() - value.len()]));
                }
            }
        }
        lemma_replaced(once, bare, value, once.len() as int);
    }
}

/// Variables that a template does not speak of leave it as it is.
proof fn lemma_before_variable(
    template: Seq<char>,
    named: Seq<(Seq<char>, Option<Seq<char>>)>,
    n: int,
)
    requires
        0 <= n <= named.len(),
        forall|j: int|
            0 <= j < n ==> with_variable(template, (#[trigger] named[j]).0, named[j].1) == Some(
                template,
            ),
    ensures
        with_variables(template, named.take(n)) == Some(template),
    decreases n,
{
    if n > 0 {
        lemma_before_variable(template, named, n - 1);
        assert(named.take(n).drop_last() == named.take(n - 1));
        assert(named.take(n).last() == named[n - 1]);
        assert(with_variable(template, named[n - 1].0, named[n - 1].1) == Some(template));
    }
}

/// A template that came out without a dollar sign is left as it is by all variables
/// that follow.
proof fn lemma_plain_rest(
    template: Seq<char>,
    expanded: Seq<char>,
    named: Seq<(Seq<char>, Option<Seq<char>>)>,
    n: int,
)
    requires
        0 <= n <= named.len(),
        !expanded.contains('$'),
        with_variables(template, named.take(n)) == Some(expanded),
    ensures
        with_variables(template, named) == Some(expanded),
    decreases named.len() - n,
{
    if n == named.len() {
        assert(named.take(n) == named);
    } else {
        lemma_plain_templates(expanded, seq![named[n]]);
        assert(seq![named[n]].drop_last() == Seq::<(Seq<char>, Option<Seq<char>>)>::empty());
        reveal_with_fuel(with_variables, 2);
        assert(seq![named[n]].last() == named[n]);
        assert(with_variable(expanded, named[n].0, named[n].1) == Some(expanded));
        assert(named.take(n + 1).drop_last() == named.take(n));
        assert(named.take(n + 1).last() == named[n]);
        lemma_plain_rest(template, expanded, named, n + 1);
    }
}

/// The parts of a label up to the end of the last link follow each other without a gap.
proof fn lemma_linked_segments_follow(
    text: Seq<char>,
    links: Seq<Link>,
    highlights: Seq<(usize, usize)>,
)
    requires
        links.len() > 0,
        in_row(links, text),
    ensures
        ({
            let parts = linked_segments(text, links, highlights);
            &&& parts.len() > 0
            &&& parts[0].start == 0
            &&& parts.last().end == links.last().end
            &&& forall|k: int|
                0 <= k < parts.len() - 1 ==> (#[trigger] parts[k]).end == parts[k + 1].start
        }),
    decreases links.len(),
{
    let rest = links.drop_last();
    let link = links[links.len() - 1];
    let parts = linked_segments(text, links, highlights);
    let before = linked_segments(text, rest, highlights);
    if rest.len() > 0 {
        assert(in_row(rest, text)) by {
            assert forall|i: int| 0 <= i < rest.len() implies stands_in(
                text,
                (#[trigger] rest[i]).start as int,
                rest[i].end as int,
            ) by {
                assert(rest[i] == links[i]);
            }
            assert forall|i: int, j: int| 0 <= i < j < rest.len() implies (#[trigger] rest[i]).end
                <= (#[trigger] rest[j]).start by {
                assert(links[i].end <= links[j].start);
            }
        }
        lemma_linked_segments_follow(text, rest, highlights);
        assert(links[links.len() - 2].end <= link.start);
    }
    assert forall|k: int| 0 <= k < parts.len() - 1 implies (#[trigger] parts[k]).end == parts[k
        + 1].start by {
        if k < before.len() - 1 {
            assert(before[k].end == before[k + 1].start);
        }
    }
    if before.len() > 0 {
        assert(parts[0] == before[0]);
    }
}

/// The parts of a label follow each other without a gap, from its start to its end.
pub proof fn lemma_segments_follow(
    text: Seq<char>,
    length: usize,
    links: Seq<Link>,
    highlights: Seq<(usize, usize)>,
)
    requires
        links.len() > 0,
        in_row(links, text),
        length == encode_utf8(text).len(),
    ensures
        ({
            let parts = label_segments(text, length, links, highlights);
            &&& parts.len() > 0
            &&& parts[0].start == 0
            &&& parts.last().end == length
            &&& forall|k: int|
                0 <= k < parts.len() - 1 ==> (#[trigger] parts[k]).end == parts[k + 1].start
        }),
{
    lemma_linked_segments_follow(text, links, highlights);
    let linked = linked_segments(text, links, highlights);
    let parts = label_segments(text, length, links, highlights);
    assert(stands_in(
        text,
        links[links.len() - 1].start as int,
        links[links.len() - 1].end as int,
    ));
    assert forall|k: int| 0 <= k < parts.len() - 1 implies (#[trigger] parts[k]).end == parts[k
        + 1].start by {
        if k < linked.len() - 1 {
            assert(linked[k].end == linked[k + 1].start);
        }
    }
    assert(parts[0] == linked[0]);
}

} // verus!
