//! Holding the licenses of a report against a policy of denied and allowed
//! license names.

use crate::expression::{
    is_license_name, license_name_is_its_own_token, license_tokens, parse_license_expression,
    tokens_are_license_names,
};
use crate::fetch::{LicenseReport, ReportText};
use crate::text::texts;
use vstd::prelude::*;
use vstd::string::StringExecFns;

verus! {

/// The rule a license broke.
#[derive(Debug, Clone, Copy, PartialEq, Eq)]
pub enum Rule {
    /// The license is on the deny list.
    Denied,
    /// There is an allow list and the license is not on it.
    NotAllowed,
}

/// One license of one package that breaks the policy.
#[derive(Debug, Clone, PartialEq, Eq)]
pub struct Violation {
    pub crate_name: String,
    pub license: String,
    pub rule: Rule,
}

/// The contents of a [`Violation`].
pub struct ViolationText {
    pub crate_name: Seq<char>,
    pub license: Seq<char>,
    pub rule: Rule,
}

impl View for Violation {
    type V = ViolationText;

    open spec fn view(&self) -> ViolationText {
        ViolationText { crate_name: self.crate_name@, license: self.license@, rule: self.rule }
    }
}

/// The views of a sequence of violations.
pub open spec fn violation_texts(items: Seq<Violation>) -> Seq<ViolationText> {
    Seq::new(items.len(), |i: int| items[i]@)
}

/// Every violation that a check found; never empty.
#[derive(Debug, Clone, PartialEq, Eq)]
pub struct PolicyError {
    pub violations: Vec<Violation>,
}

/// The tokens of all of `items`, in order: what a list of license expressions
/// comes to as a list of license names.
pub open spec fn expanded(items: Seq<Seq<char>>) -> Seq<Seq<char>>
    decreases items.len(),
{
    if items.len() == 0 {
        Seq::empty()
    } else {
        expanded(items.drop_last()) + license_tokens(items.last())
    }
}

/// The violations, in order, of the `tokens` of `crate_name` that `breaks`
/// holds of.
pub open spec fn breaking(
    crate_name: Seq<char>,
    tokens: Seq<Seq<char>>,
    rule: Rule,
    listed: Seq<Seq<char>>,
) -> Seq<ViolationText>
    decreases tokens.len(),
{
    if tokens.len() == 0 {
        Seq::empty()
    } else {
        let before = breaking(crate_name, tokens.drop_last(), rule, listed);
        if breaks(tokens.last(), rule, listed) {
            before.push(ViolationText { crate_name, license: tokens.last(), rule })
        } else {
            before
        }
    }
}

/// Whether `token` breaks `rule`, given the names the rule lists: a denied
/// token is one that is listed, a token not allowed one that is not.
pub open spec fn breaks(token: Seq<char>, rule: Rule, listed: Seq<Seq<char>>) -> bool {
    match rule {
        Rule::Denied => listed.contains(token),
        Rule::NotAllowed => !listed.contains(token),
    }
}

/// The violations of one report: where `deny` is not empty, its tokens that
/// the expanded `deny` lists; then, where `allow` is not empty, its tokens
/// that the expanded `allow` does not list.
pub open spec fn report_violations(
    report: ReportText,
    deny: Seq<Seq<char>>,
    allow: Seq<Seq<char>>,
) -> Seq<ViolationText> {
    let tokens = license_tokens(report.license);
    (if deny.len() > 0 {
        breaking(report.crate_name, tokens, Rule::Denied, expanded(deny))
    } else {
        Seq::empty()
    }) + (if allow.len() > 0 {
        breaking(report.crate_name, tokens, Rule::NotAllowed, expanded(allow))
    } else {
        Seq::empty()
    })
}

/// The violations of all `reports`, report by report.
pub open spec fn violations(
    reports: Seq<LicenseReport>,
    deny: Seq<Seq<char>>,
    allow: Seq<Seq<char>>,
) -> Seq<ViolationText>
    decreases reports.len(),
{
    if reports.len() == 0 {
        Seq::empty()
    } else {
        violations(reports.drop_last(), deny, allow) + report_violations(
            reports.last()@,
            deny,
            allow,
        )
    }
}

/// Without a deny list and without an allow list nothing is a violation,
/// whatever the reports hold.
pub proof fn no_policy_no_violations(reports: Seq<LicenseReport>)
    ensures
        violations(reports, Seq::empty(), Seq::empty()) == Seq::<ViolationText>::empty(),
    decreases reports.len(),
{
    if reports.len() > 0 {
        no_policy_no_violations(reports.drop_last());
        assert(report_violations(reports.last()@, Seq::empty(), Seq::empty()) =~= Seq::empty());
    }
}

proof fn expanded_joins(first: Seq<Seq<char>>, second: Seq<Seq<char>>)
    ensures
        expanded(first + second) == expanded(first) + expanded(second),
    decreases second.len(),
{
    if second.len() == 0 {
        assert(first + second =~= first);
        assert(expanded(first) + expanded(second) =~= expanded(first));
    } else {
        assert((first + second).drop_last() =~= first + second.drop_last());
        expanded_joins(first, second.drop_last());
        assert(expanded(first + second) =~= expanded(first) + expanded(second));
    }
}

proof fn names_expand_to_themselves(names: Seq<Seq<char>>)
    requires
        forall|i: int| 0 <= i < names.len() ==> is_license_name(#[trigger] names[i]),
    ensures
        expanded(names) == names,
    decreases names.len(),
{
    if names.len() > 0 {
        names_expand_to_themselves(names.drop_last());
        license_name_is_its_own_token(names.last());
        assert(names.drop_last() + seq![names.last()] =~= names);
    }
}

/// Expanding a list that was expanded before changes nothing.
pub proof fn expanding_twice_changes_nothing(items: Seq<Seq<char>>)
    ensures
        expanded(expanded(items)) == expanded(items),
    decreases items.len(),
{
    if items.len() > 0 {
        let tokens = license_tokens(items.last());
        expanding_twice_changes_nothing(items.drop_last());
        expanded_joins(expanded(items.drop_last()), tokens);
        assert forall|i: int| 0 <= i < tokens.len() implies is_license_name(
            #[trigger] tokens[i],
        ) by {
            tokens_are_license_names(items.last(), i);
        }
        names_expand_to_themselves(tokens);
    }
}

/// Expands each entry of a deny or allow list as a license expression, so
/// that `MIT OR Apache-2.0` counts as the two names `MIT` and `Apache-2.0`.
pub fn expand_user_input(license_list: &[String]) -> (expanded_list: Vec<String>)
    ensures
        texts(expanded_list@) == expanded(texts(license_list@)),
{
    let mut expanded_list: Vec<String> = Vec::new();
    let mut i: usize = 0;
    assert(texts(expanded_list@) =~= Seq::empty());
    while i < license_list.len()
        invariant
            i <= license_list.len(),
            texts(expanded_list@) == expanded(texts(license_list@).take(i as int)),
        decreases license_list.len() - i,
    {
        assert(texts(license_list@).take(i as int + 1).drop_last() =~= texts(license_list@).take(
            i as int,
        ));
        let mut tokens = parse_license_expression(license_list[i].as_str());
        let ghost before = expanded_list@;
        let ghost added = tokens@;
        expanded_list.append(&mut tokens);
        assert(texts(expanded_list@) =~= texts(before) + texts(added));
        i += 1;
    }
    assert(texts(license_list@).take(license_list.len() as int) =~= texts(license_list@));
    expanded_list
}

fn lists(listed: &Vec<String>, token: &String) -> (found: bool)
    ensures
        found == texts(listed@).contains(token@),
{
    let mut i: usize = 0;
    while i < listed.len()
        invariant
            i <= listed.len(),
            forall|j: int| 0 <= j < i ==> texts(listed@)[j] != token@,
        decreases listed.len() - i,
    {
        if listed[i] == *token {
            assert(texts(listed@)[i as int] == token@);
            return true;
        }
        i += 1;
    }
    false
}

fn note_breaking(
    found: &mut Vec<Violation>,
    crate_name: &String,
    tokens: &Vec<String>,
    rule: Rule,
    listed: &Vec<String>,
)
    ensures
        violation_texts(final(found)@) == violation_texts(old(found)@) + breaking(
            crate_name@,
            texts(tokens@),
            rule,
            texts(listed@),
        ),
{
    let ghost start = violation_texts(found@);
    let mut i: usize = 0;
    assert(start =~= start + Seq::<ViolationText>::empty());
    while i < tokens.len()
        invariant
            i <= tokens.len(),
            violation_texts(found@) == start + breaking(
                crate_name@,
                texts(tokens@).take(i as int),
                rule,
                texts(listed@),
            ),
        decreases tokens.len() - i,
    {
        assert(texts(tokens@).take(i as int + 1).drop_last() =~= texts(tokens@).take(i as int));
        let ghost before = violation_texts(found@);
        let is_listed = lists(listed, &tokens[i]);
        let broken = match rule {
            Rule::Denied => is_listed,
            Rule::NotAllowed => !is_listed,
        };
        if broken {
            let violation = Violation {
                crate_name: crate_name.clone(),
                license: tokens[i].clone(),
                rule,
            };
            found.push(violation);
            assert(violation_texts(found@) =~= before.push(violation@));
        }
        i += 1;
    }
    assert(texts(tokens@).take(tokens.len() as int) =~= texts(tokens@));
}

/// Checks the licenses of `reports` against the policy. Both lists are
/// expanded first. A license name on the deny list is a violation; where there
/// is an allow list, so is one that is not on it. All violations are gathered
/// before the check fails with them.
pub fn check_licenses(reports: &[LicenseReport], deny: &[String], allow: &[String]) -> (result:
    Result<(), PolicyError>)
    ensures
        match result {
            Ok(_) => violations(reports@, texts(deny@), texts(allow@)).len() == 0,
            Err(error) => {
                &&& error.violations.len() > 0
                &&& violation_texts(error.violations@) == violations(
                    reports@,
                    texts(deny@),
                    texts(allow@),
                )
            },
        },
        deny@.len() == 0 && allow@.len() == 0 ==> result is Ok,
{
    proof {
        if deny@.len() == 0 && allow@.len() == 0 {
            no_policy_no_violations(reports@);
            assert(texts(deny@) =~= Seq::empty());
            assert(texts(allow@) =~= Seq::empty());
        }
    }
    let deny_names = expand_user_input(deny);
    let allow_names = expand_user_input(allow);
    let mut found: Vec<Violation> = Vec::new();
    let mut i: usize = 0;
    assert(violation_texts(found@) =~= Seq::empty());
    while i < reports.len()
        invariant
            i <= reports.len(),
            texts(deny_names@) == expanded(texts(deny@)),
            texts(allow_names@) == expanded(texts(allow@)),
            violation_texts(found@) == violations(
                reports@.take(i as int),
                texts(deny@),
                texts(allow@),
            ),
        decreases reports.len() - i,
    {
        assert(reports@.take(i as int + 1).drop_last() =~= reports@.take(i as int));
        let ghost before = violation_texts(found@);
        let report = &reports[i];
        let tokens = parse_license_expression(report.license.as_str());
        if deny.len() > 0 {
            note_breaking(&mut found, &report.crate_name, &tokens, Rule::Denied, &deny_names);
        }
        let ghost between = violation_texts(found@);
        if allow.len() > 0 {
            note_breaking(&mut found, &report.crate_name, &tokens, Rule::NotAllowed, &allow_names);
        }
        assert(violation_texts(found@) =~= before + report_violations(
            reports[i as int]@,
            texts(deny@),
            texts(allow@),
        ));
        i += 1;
    }
    assert(reports@.take(reports.len() as int) =~= reports@);
    if found.len() > 0 {
        Err(PolicyError { violations: found })
    } else {
        Ok(())
    }
}

impl Violation {
    /// The violation in words.
    pub open spec fn message_text(self) -> Seq<char> {
        "Crate '"@ + self.crate_name@ + "': sub-license '"@ + self.license@ + match self.rule {
            Rule::Denied => "' is in the deny list."@,
            Rule::NotAllowed => "' is NOT in the allow list."@,
        }
    }

    /// The violation in words.
    pub fn message(&self) -> (text: String)
        ensures
            text@ == self.message_text(),
    {
        let mut text = "Crate '".to_owned();
        text.append(self.crate_name.as_str());
        text.append("': sub-license '");
        text.append(self.license.as_str());
        match self.rule {
            Rule::Denied => text.append("' is in the deny list."),
            Rule::NotAllowed => text.append("' is NOT in the allow list."),
        }
        text
    }
}

/// The messages of `items`, one to a line.
pub open spec fn message_lines(items: Seq<Violation>) -> Seq<char>
    decreases items.len(),
{
    if items.len() == 0 {
        Seq::empty()
    } else if items.len() == 1 {
        items[0].message_text()
    } else {
        message_lines(items.drop_last()) + "\n"@ + items.last().message_text()
    }
}

impl PolicyError {
    /// The error in words: a heading, then the violations one to a line.
    pub open spec fn message_text(self) -> Seq<char> {
        "License check found these violations:\n"@ + message_lines(self.violations@)
    }

    /// The error in words: a heading, then the violations one to a line.
    pub fn message(&self) -> (text: String)
        ensures
            text@ == self.message_text(),
    {
        let mut lines = String::new();
        let mut i: usize = 0;
        while i < self.violations.len()
            invariant
                i <= self.violations.len(),
                lines@ == message_lines(self.violations@.take(i as int)),
            decreases self.violations.len() - i,
        {
            assert(self.violations@.take(i as int + 1).drop_last() =~= self.violations@.take(
                i as int,
            ));
            if i > 0 {
                lines.append("\n");
            }
            let line = self.violations[i].message();
            lines.append(line.as_str());
            assert(lines@ =~= message_lines(self.violations@.take(i as int + 1)));
            i += 1;
        }
        assert(self.violations@.take(self.violations.len() as int) =~= self.violations@);
        let mut text = "License check found these violations:\n".to_owned();
        text.append(lines.as_str());
        text
    }
}

} // verus!
