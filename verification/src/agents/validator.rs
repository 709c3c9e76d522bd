//! The validator agent: an ordered list of rules, each critical or advisory.
//! A failing critical rule, or any failing rule under strict mode, becomes an
//! error; a failing advisory rule becomes a warning. Validation succeeds iff
//! there are no errors; success and failure route to independently
//! configurable next nodes, and a failure never aborts the run by itself.

use vstd::prelude::*;
use vstd::string::StringExecFns;
use crate::bridge::{regex_is_match, regex_matches, regex_valid};
use crate::graph::Agent;
use crate::text::{dec_str, join_sep, join_with, usize_to_string};
use crate::tools::CombinedToolRegistry;

verus! {

/// What a rule checks of an input.
pub enum RuleCheck {
    /// The input's length, in characters, must lie within the given bounds.
    Length { min: Option<usize>, max: Option<usize> },
    /// The input must match the regular expression; a pattern the regex
    /// engine rejects passes.
    Pattern { pattern: String, error: String },
}

/// One validation rule: its name, what it checks, and whether a failure is an
/// error rather than a warning.
pub struct ValidationRule {
    /// The rule's name, prefixed to its messages.
    pub name: String,
    /// What the rule checks.
    pub check: RuleCheck,
    /// Whether a failure stops validation from succeeding.
    pub critical: bool,
}

/// The failure message a check yields for this input, if it fails.
pub open spec fn check_error(check: RuleCheck, input: Seq<char>) -> Option<Seq<char>> {
    match check {
        RuleCheck::Length { min, max } => {
            if min is Some && input.len() < min->Some_0 as nat {
                Some("Input too short (min: "@ + dec_str(min->Some_0 as nat) + ")"@)
            } else if max is Some && input.len() > max->Some_0 as nat {
                Some("Input too long (max: "@ + dec_str(max->Some_0 as nat) + ")"@)
            } else {
                None
            }
        },
        RuleCheck::Pattern { pattern, error } => {
            if regex_valid(pattern@) && !regex_matches(pattern@, input) {
                Some(error@)
            } else {
                None
            }
        },
    }
}

/// The warnings and errors the rules yield for this input, in rule order:
/// a failure is an error when its rule is critical or strict mode is on, and
/// a warning otherwise.
pub open spec fn collect_results(rules: Seq<ValidationRule>, strict: bool, input: Seq<char>) -> (
    Seq<Seq<char>>,
    Seq<Seq<char>>,
)
    decreases rules.len(),
{
    if rules.len() == 0 {
        (Seq::empty(), Seq::empty())
    } else {
        let rest = collect_results(rules.drop_first(), strict, input);
        match check_error(rules[0].check, input) {
            None => rest,
            Some(msg) => {
                let full = rules[0].name@ + ": "@ + msg;
                if rules[0].critical || strict {
                    (rest.0, seq![full] + rest.1)
                } else {
                    (seq![full] + rest.0, rest.1)
                }
            },
        }
    }
}

/// Validates inputs against ordered rules and routes by the outcome.
pub struct ValidatorAgent {
    /// The rules, in evaluation order.
    pub rules: Vec<ValidationRule>,
    /// The agent's name.
    pub name: String,
    /// Where a successful validation routes.
    pub next_node_on_success: Option<i32>,
    /// Where a failed validation routes.
    pub next_node_on_failure: Option<i32>,
    /// Whether any failing rule, advisory or not, becomes an error.
    pub strict_mode: bool,
}

impl ValidatorAgent {
    /// Creates a validator with no rules, no routes, and strict mode off.
    pub fn new() -> (r: ValidatorAgent)
        ensures
            r.rules@ == Seq::<ValidationRule>::empty(),
            r.name@ == "Validator"@,
            r.next_node_on_success is None,
            r.next_node_on_failure is None,
            r.strict_mode == false,
    {
        ValidatorAgent {
            rules: Vec::new(),
            name: String::from_str("Validator"),
            next_node_on_success: None,
            next_node_on_failure: None,
            strict_mode: false,
        }
    }

    /// Adds a validation rule after the existing ones.
    pub fn add_rule(self, rule: ValidationRule) -> (r: Self)
        ensures
            r.rules@ == self.rules@.push(rule),
            r.name == self.name,
            r.next_node_on_success == self.next_node_on_success,
            r.next_node_on_failure == self.next_node_on_failure,
            r.strict_mode == self.strict_mode,
    {
        let mut rules = self.rules;
        rules.push(rule);
        ValidatorAgent {
            rules,
            name: self.name,
            next_node_on_success: self.next_node_on_success,
            next_node_on_failure: self.next_node_on_failure,
            strict_mode: self.strict_mode,
        }
    }

    /// Adds a rule that requires the input to match a regular expression.
    pub fn add_pattern_rule(self, name: &str, pattern: &str, error_msg: &str, critical: bool) -> (r:
        Self)
        ensures
            r.rules@.len() == self.rules@.len() + 1,
            r.rules@.last().name@ == name@,
            r.rules@.last().check == (RuleCheck::Pattern {
                pattern: r.rules@.last().check->Pattern_pattern,
                error: r.rules@.last().check->Pattern_error,
            }),
            r.rules@.last().check->Pattern_pattern@ == pattern@,
            r.rules@.last().check->Pattern_error@ == error_msg@,
            r.rules@.last().critical == critical,
            forall|k: int| 0 <= k < self.rules@.len() ==> r.rules@[k] == self.rules@[k],
            r.name == self.name,
            r.next_node_on_success == self.next_node_on_success,
            r.next_node_on_failure == self.next_node_on_failure,
            r.strict_mode == self.strict_mode,
    {
        let rule = ValidationRule {
            name: String::from_str(name),
            check: RuleCheck::Pattern {
                pattern: String::from_str(pattern),
                error: String::from_str(error_msg),
            },
            critical,
        };
        self.add_rule(rule)
    }

    /// Adds a rule that bounds the input's length in characters.
    pub fn add_length_rule(self, min: Option<usize>, max: Option<usize>, critical: bool) -> (r:
        Self)
        ensures
            r.rules@.len() == self.rules@.len() + 1,
            r.rules@.last().name@ == "length_check"@,
            r.rules@.last().check == (RuleCheck::Length { min, max }),
            r.rules@.last().critical == critical,
            forall|k: int| 0 <= k < self.rules@.len() ==> r.rules@[k] == self.rules@[k],
            r.name == self.name,
            r.next_node_on_success == self.next_node_on_success,
            r.next_node_on_failure == self.next_node_on_failure,
            r.strict_mode == self.strict_mode,
    {
        let rule = ValidationRule {
            name: String::from_str("length_check"),
            check: RuleCheck::Length { min, max },
            critical,
        };
        self.add_rule(rule)
    }

    /// Sets the node a successful validation routes to.
    pub fn with_success_route(self, node_id: i32) -> (r: Self)
        ensures
            r == (ValidatorAgent { next_node_on_success: Some(node_id), ..self }),
    {
        ValidatorAgent { next_node_on_success: Some(node_id), ..self }
    }

    /// Sets the node a failed validation routes to.
    pub fn with_failure_route(self, node_id: i32) -> (r: Self)
        ensures
            r == (ValidatorAgent { next_node_on_failure: Some(node_id), ..self }),
    {
        ValidatorAgent { next_node_on_failure: Some(node_id), ..self }
    }

    /// Turns strict mode on or off.
    pub fn with_strict_mode(self, strict: bool) -> (r: Self)
        ensures
            r == (ValidatorAgent { strict_mode: strict, ..self }),
    {
        ValidatorAgent { strict_mode: strict, ..self }
    }

    /// Sets the agent's name.
    pub fn with_name(self, name: &str) -> (r: Self)
        ensures
            r.rules == self.rules,
            r.name@ == name@,
            r.next_node_on_success == self.next_node_on_success,
            r.next_node_on_failure == self.next_node_on_failure,
            r.strict_mode == self.strict_mode,
    {
        ValidatorAgent { name: String::from_str(name), ..self }
    }

    fn check_input(check: &RuleCheck, input: &str, input_chars: usize) -> (r: Option<String>)
        requires
            input_chars as nat == input@.len(),
        ensures
            match r {
                Some(msg) => check_error(*check, input@) == Some(msg@),
                None => check_error(*check, input@) is None,
            },
    {
        match check {
            RuleCheck::Length { min, max } => {
                match min {
                    Some(m) => {
                        if input_chars < *m {
                            let mut s = String::from_str("Input too short (min: ");
                            s.append(usize_to_string(*m).as_str());
                            s.append(")");
                            proof {
                                reveal_strlit(")");
                            }
                            return Some(s);
                        }
                    },
                    None => {},
                }
                match max {
                    Some(m) => {
                        if input_chars > *m {
                            let mut s = String::from_str("Input too long (max: ");
                            s.append(usize_to_string(*m).as_str());
                            s.append(")");
                            proof {
                                reveal_strlit(")");
                            }
                            return Some(s);
                        }
                    },
                    None => {},
                }
                None
            },
            RuleCheck::Pattern { pattern, error } => {
                match regex_is_match(pattern.as_str(), input) {
                    Some(false) => Some(error.clone()),
                    _ => None,
                }
            },
        }
    }

    /// Validates the input against all rules, in order: the warnings when no
    /// rule yields an error, the errors otherwise.
    pub fn validate(&self, input: &str) -> (r: Result<Vec<String>, Vec<String>>)
        ensures
            ({
                let c = collect_results(self.rules@, self.strict_mode, input@);
                match r {
                    Ok(warnings) => c.1.len() == 0 && warnings.deep_view() == c.0,
                    Err(errors) => c.1.len() > 0 && errors.deep_view() == c.1,
                }
            }),
    {
        let mut warnings: Vec<String> = Vec::new();
        let mut errors: Vec<String> = Vec::new();
        let input_chars = crate::text::chars_of(input).len();
        let mut i: usize = 0;
        proof {
            assert(self.rules@.skip(0) =~= self.rules@);
        }
        while i < self.rules.len()
            invariant
                i <= self.rules@.len(),
                input_chars as nat == input@.len(),
                ({
                    let c = collect_results(self.rules@, self.strict_mode, input@);
                    let rest = collect_results(
                        self.rules@.skip(i as int),
                        self.strict_mode,
                        input@,
                    );
                    c.0 == warnings.deep_view() + rest.0 && c.1 == errors.deep_view() + rest.1
                }),
            decreases self.rules@.len() - i,
        {
            let rule = &self.rules[i];
            proof {
                assert(self.rules@.skip(i as int)[0] == self.rules@[i as int]);
                assert(self.rules@.skip(i as int).drop_first() =~= self.rules@.skip(i + 1));
            }
            let ghost w0 = warnings.deep_view();
            let ghost e0 = errors.deep_view();
            match Self::check_input(&rule.check, input, input_chars) {
                None => {},
                Some(msg) => {
                    let mut full = rule.name.clone();
                    full.append(": ");
                    full.append(msg.as_str());
                    if rule.critical || self.strict_mode {
                        errors.push(full);
                    } else {
                        warnings.push(full);
                    }
                },
            }
            proof {
                let c = collect_results(self.rules@, self.strict_mode, input@);
                let rest = collect_results(self.rules@.skip(i as int), self.strict_mode, input@);
                let rest1 = collect_results(self.rules@.skip(i + 1), self.strict_mode, input@);
                match check_error(self.rules@[i as int].check, input@) {
                    None => {},
                    Some(msg) => {
                        let full = self.rules@[i as int].name@ + ": "@ + msg;
                        if self.rules@[i as int].critical || self.strict_mode {
                            assert(errors.deep_view() =~= e0.push(full));
                            assert(e0.push(full) + rest1.1 =~= e0 + (seq![full] + rest1.1));
                        } else {
                            assert(warnings.deep_view() =~= w0.push(full));
                            assert(w0.push(full) + rest1.0 =~= w0 + (seq![full] + rest1.0));
                        }
                    },
                }
                assert(c.0 =~= warnings.deep_view() + rest1.0);
                assert(c.1 =~= errors.deep_view() + rest1.1);
            }
            i = i + 1;
        }
        proof {
            assert(self.rules@.skip(self.rules@.len() as int) =~= Seq::<ValidationRule>::empty());
            assert(collect_results(self.rules@, self.strict_mode, input@).0 =~= warnings.deep_view());
            assert(collect_results(self.rules@, self.strict_mode, input@).1 =~= errors.deep_view());
        }
        if errors.len() == 0 {
            Ok(warnings)
        } else {
            Err(errors)
        }
    }
}

impl View for ValidatorAgent {
    type V = ValidatorAgent;

    open spec fn view(&self) -> ValidatorAgent {
        *self
    }
}

impl Agent for ValidatorAgent {
    open spec fn spec_output(v: ValidatorAgent, input: Seq<char>) -> Seq<char> {
        let c = collect_results(v.rules@, v.strict_mode, input);
        if c.1.len() == 0 {
            if c.0.len() == 0 {
                "Validation passed for: "@ + input
            } else {
                "Validation passed for: "@ + input + "\nWarnings: "@ + join_sep(c.0, ", "@)
            }
        } else {
            "Validation failed for: "@ + input + "\nErrors: "@ + join_sep(c.1, ", "@)
        }
    }

    open spec fn spec_next(v: ValidatorAgent, input: Seq<char>) -> Option<i32> {
        let c = collect_results(v.rules@, v.strict_mode, input);
        if c.1.len() == 0 {
            v.next_node_on_success
        } else {
            v.next_node_on_failure
        }
    }

    open spec fn spec_step(v: ValidatorAgent, input: Seq<char>) -> ValidatorAgent {
        v
    }

    open spec fn spec_name(&self) -> Seq<char> {
        self.name@
    }

    fn run(&mut self, input: &str, tools: &CombinedToolRegistry) -> (r: (String, Option<i32>)) {
        match self.validate(input) {
            Ok(warnings) => {
                let mut response = String::from_str("Validation passed for: ");
                response.append(input);
                if warnings.len() > 0 {
                    response.append("\nWarnings: ");
                    response.append(join_with(&warnings, ", ").as_str());
                }
                (response, self.next_node_on_success)
            },
            Err(errors) => {
                let mut response = String::from_str("Validation failed for: ");
                response.append(input);
                response.append("\nErrors: ");
                response.append(join_with(&errors, ", ").as_str());
                (response, self.next_node_on_failure)
            },
        }
    }

    fn get_name(&self) -> (r: &str) {
        self.name.as_str()
    }
}

} // verus!
