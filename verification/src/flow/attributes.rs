//! Control attribute based flow for attribute selection: which producers are compatible with a
//! consumer, and which of several compatible producers is closest to it.

use vstd::prelude::*;
use core::cmp::Ordering;
use core::marker::PhantomData;
use vstd::std_specs::cmp::{PartialEqSpec, PartialOrdSpec};
use crate::named::{named_eq, named_order, Named};
use crate::text::{compare_text, views};

verus! {

/// Some attribute
pub trait Attribute: PartialEq {
    /// The identifier of the attribute's kind.
    fn attribute_id(&self) -> String;
}

/// data to pass compatibility check information
pub struct CompatibilityCheck<'a, T> {
    consumer: &'a Named<T>,
    producer: &'a Named<T>,
    is_compatible: Option<bool>,
}

impl<'a, T> CompatibilityCheck<'a, T> {
    /// The consumer attribute.
    pub closed spec fn consumer_of(self) -> Named<T> {
        *self.consumer
    }

    /// The producer attribute.
    pub closed spec fn producer_of(self) -> Named<T> {
        *self.producer
    }

    /// What the check has concluded: compatible, incompatible, or nothing yet.
    pub closed spec fn verdict(self) -> Option<bool> {
        self.is_compatible
    }

    fn new(consumer: &'a Named<T>, producer: &'a Named<T>) -> (r: Self)
        ensures
            r.consumer_of() == *consumer,
            r.producer_of() == *producer,
            r.verdict() is None,
    {
        Self { consumer, producer, is_compatible: None }
    }

    /// Get the consumer attribute
    pub fn consumer(&self) -> (r: &'a Named<T>)
        ensures
            *r == self.consumer_of(),
    {
        self.consumer
    }

    /// Get the producer attribute
    pub fn producer(&self) -> (r: &'a Named<T>)
        ensures
            *r == self.producer_of(),
    {
        self.producer
    }

    /// Calling this method will indicate that the attributes are compatible
    pub fn compatible(&mut self)
        ensures
            final(self).verdict() == Some(true),
            final(self).consumer_of() == old(self).consumer_of(),
            final(self).producer_of() == old(self).producer_of(),
    {
        self.is_compatible = Some(true);
    }

    /// Calling this method will indicate that the attributes are incompatible
    pub fn incompatible(&mut self)
        ensures
            final(self).verdict() == Some(false),
            final(self).consumer_of() == old(self).consumer_of(),
            final(self).producer_of() == old(self).producer_of(),
    {
        self.is_compatible = Some(false);
    }
}

/// A rule that may decide whether a producer is compatible with a consumer.
pub trait AttributeCompatibilityRule<T> {
    /// Whether the rule can leave `verdict` for the consumer and the producer.
    spec fn decides(&self, consumer: Named<T>, producer: Named<T>, verdict: Option<bool>) -> bool;

    /// Check the capability of an attribute
    fn check_capability(&self, check: &mut CompatibilityCheck<'_, T>)
        requires
            old(check).verdict() is None,
        ensures
            final(check).consumer_of() == old(check).consumer_of(),
            final(check).producer_of() == old(check).producer_of(),
            self.decides(old(check).consumer_of(), old(check).producer_of(), final(check).verdict()),
    ;
}

/// What a consumer-ordered rule concludes: compatible when the consumer is less than or equal
/// to the producer, incompatible when it is greater, nothing when they are unordered.
pub open spec fn ordered_verdict(order: Option<Ordering>) -> Option<bool> {
    match order {
        Some(Ordering::Less) => Some(true),
        Some(Ordering::Equal) => Some(true),
        Some(Ordering::Greater) => Some(false),
        None => None,
    }
}

/// What a reverse-ordered rule concludes: compatible when the consumer is greater than or equal
/// to the producer, incompatible when it is less, nothing when they are unordered.
pub open spec fn ordered_rev_verdict(order: Option<Ordering>) -> Option<bool> {
    match order {
        Some(Ordering::Greater) => Some(true),
        Some(Ordering::Equal) => Some(true),
        Some(Ordering::Less) => Some(false),
        None => None,
    }
}

/// The rule added by [`AttributeCompatibilityChain::ordered`].
pub struct OrderedRule<T> {
    _ty: PhantomData<T>,
}

impl<T: PartialOrd> AttributeCompatibilityRule<T> for OrderedRule<T> {
    open spec fn decides(&self, consumer: Named<T>, producer: Named<T>, verdict: Option<bool>) -> bool {
        T::obeys_partial_cmp_spec() ==> verdict == ordered_verdict(named_order(consumer, producer))
    }

    fn check_capability(&self, check: &mut CompatibilityCheck<'_, T>) {
        let consumer = check.consumer();
        let producer = check.producer();
        match consumer.partial_compare(producer) {
            Some(Ordering::Equal) => check.compatible(),
            Some(Ordering::Less) => check.compatible(),
            Some(Ordering::Greater) => check.incompatible(),
            None => {},
        };
    }
}

/// The rule added by [`AttributeCompatibilityChain::ordered_rev`].
pub struct OrderedRevRule<T> {
    _ty: PhantomData<T>,
}

impl<T: PartialOrd> AttributeCompatibilityRule<T> for OrderedRevRule<T> {
    open spec fn decides(&self, consumer: Named<T>, producer: Named<T>, verdict: Option<bool>) -> bool {
        T::obeys_partial_cmp_spec() ==> verdict == ordered_rev_verdict(named_order(consumer, producer))
    }

    fn check_capability(&self, check: &mut CompatibilityCheck<'_, T>) {
        let consumer = check.consumer();
        let producer = check.producer();
        match consumer.partial_compare(producer) {
            Some(Ordering::Equal) => check.compatible(),
            Some(Ordering::Greater) => check.compatible(),
            Some(Ordering::Less) => check.incompatible(),
            None => {},
        };
    }
}

/// A rule given to a chain, kept by the chain as itself.
struct RuleOf<R> {
    rule: R,
}

impl<T, R: AttributeCompatibilityRule<T>> AttributeCompatibilityRule<T> for RuleOf<R> {
    closed spec fn decides(&self, consumer: Named<T>, producer: Named<T>, verdict: Option<bool>) -> bool {
        self.rule.decides(consumer, producer, verdict)
    }

    fn check_capability(&self, check: &mut CompatibilityCheck<'_, T>) {
        self.rule.check_capability(check)
    }
}

impl<T, R: MultipleCandidatesRule<T>> MultipleCandidatesRule<T> for RuleOf<R> {
    closed spec fn picks(&self, consumer: Named<T>, candidates: Seq<&Named<T>>, chosen: Option<&Named<T>>) -> bool {
        self.rule.picks(consumer, candidates, chosen)
    }

    fn disambiguate(&self, details: &mut MultipleCandidates<'_, T>) {
        self.rule.disambiguate(details)
    }
}

/// A compatibility rule made of a closure: called with the consumer and the producer, it
/// answers compatible (`Some(true)`), incompatible (`Some(false)`) or nothing (`None`).
pub struct CompatibilityFn<T, F: Fn(&Named<T>, &Named<T>) -> Option<bool>> {
    func: F,
    _ty: PhantomData<T>,
}

impl<T, F: Fn(&Named<T>, &Named<T>) -> Option<bool>> CompatibilityFn<T, F> {
    /// The closure can be called on every consumer and producer.
    #[verifier::type_invariant]
    closed spec fn callable(self) -> bool {
        forall|c: &Named<T>, p: &Named<T>| call_requires(self.func, (c, p))
    }

    /// The rule that `func` gives, called with the consumer and then the producer.
    pub fn new(func: F) -> (r: Self)
        requires
            forall|c: &Named<T>, p: &Named<T>| call_requires(func, (c, p)),
        ensures
            r.func() == func,
    {
        CompatibilityFn { func, _ty: PhantomData }
    }

    /// The closure of the rule.
    pub closed spec fn func(self) -> F {
        self.func
    }
}

impl<T, F: Fn(&Named<T>, &Named<T>) -> Option<bool>> AttributeCompatibilityRule<T> for CompatibilityFn<T, F> {
    open spec fn decides(&self, consumer: Named<T>, producer: Named<T>, verdict: Option<bool>) -> bool {
        call_ensures(self.func(), (&consumer, &producer), verdict)
    }

    fn check_capability(&self, check: &mut CompatibilityCheck<'_, T>) {
        proof {
            use_type_invariant(self);
        }
        let consumer = check.consumer();
        let producer = check.producer();
        let verdict = (self.func)(consumer, producer);
        match verdict {
            Some(true) => check.compatible(),
            Some(false) => check.incompatible(),
            None => {},
        }
    }
}

/// The compatibility rules of a chain: none, or the rules added before the last one, then the
/// last one.
#[verifier::reject_recursive_types(T)]
pub enum CompatibilityRules<T> {
    Empty,
    Then(Box<CompatibilityRules<T>>, Box<dyn AttributeCompatibilityRule<T>>),
}

/// What the rules can conclude without the equality fallback: the verdict of the earliest
/// rule that decides, or none when no rule decides.
pub open spec fn rules_verdict<T>(
    rules: CompatibilityRules<T>,
    consumer: Named<T>,
    producer: Named<T>,
    v: Option<bool>,
) -> bool
    decreases rules,
{
    match rules {
        CompatibilityRules::Empty => v is None,
        CompatibilityRules::Then(earlier, last) => {
            ||| (v is Some && rules_verdict(*earlier, consumer, producer, v))
            ||| (rules_verdict(*earlier, consumer, producer, None) && last.decides(consumer, producer, v))
        },
    }
}

/// What a chain of rules concludes: the verdict of the earliest rule that decides; when none
/// does, the producer is compatible exactly when it equals the consumer.
pub open spec fn chain_verdict<T: PartialEq>(
    rules: CompatibilityRules<T>,
    consumer: Named<T>,
    producer: Named<T>,
    r: bool,
) -> bool {
    ||| rules_verdict(rules, consumer, producer, Some(r))
    ||| (rules_verdict(rules, consumer, producer, None) && (T::obeys_eq_spec() ==> r == named_eq(
        producer,
        consumer,
    )))
}

/// Without rules, a producer is compatible with a consumer exactly when the two are equal.
pub proof fn no_rules_means_equality<T: PartialEq>(consumer: Named<T>, producer: Named<T>, r: bool)
    requires
        T::obeys_eq_spec(),
    ensures
        chain_verdict(CompatibilityRules::Empty, consumer, producer, r) <==> r == named_eq(producer, consumer),
{
}

/// Rules are consulted in the order they were added: a verdict that the earlier rules give
/// stands after a rule is added, and the rule added last decides where none of them does.
pub proof fn earlier_rules_take_precedence<T>(
    rules: CompatibilityRules<T>,
    consumer: Named<T>,
    producer: Named<T>,
    v: Option<bool>,
)
    requires
        rules is Then,
    ensures
        match rules {
            CompatibilityRules::Then(earlier, last) => {
                &&& v is Some && rules_verdict(*earlier, consumer, producer, v) ==> rules_verdict(
                    rules,
                    consumer,
                    producer,
                    v,
                )
                &&& rules_verdict(*earlier, consumer, producer, None) && last.decides(consumer, producer, v)
                    ==> rules_verdict(rules, consumer, producer, v)
            },
            CompatibilityRules::Empty => true,
        },
{
}

/// A chain of one rule gives the rule's verdict, and where the rule gives none, whether the
/// producer equals the consumer.
pub proof fn single_rule_verdict<T: PartialEq>(rules: CompatibilityRules<T>, consumer: Named<T>, producer: Named<T>, r: bool)
    requires
        rules matches CompatibilityRules::Then(earlier, _) && *earlier is Empty,
    ensures
        match rules {
            CompatibilityRules::Then(_, last) => chain_verdict(rules, consumer, producer, r) <==> (last.decides(
                consumer,
                producer,
                Some(r),
            ) || (last.decides(consumer, producer, None) && (T::obeys_eq_spec() ==> r == named_eq(
                producer,
                consumer,
            )))),
            CompatibilityRules::Empty => true,
        },
{
    reveal_with_fuel(rules_verdict, 2);
}

/// The compatibility rules, checked in the order they were added.
#[verifier::reject_recursive_types(T)]
pub struct AttributeCompatibilityChain<T> {
    rules: CompatibilityRules<T>,
}

impl<T> AttributeCompatibilityChain<T> {
    /// The rules, the last added last.
    pub closed spec fn rules(self) -> CompatibilityRules<T> {
        self.rules
    }

    pub fn new() -> (r: Self)
        ensures
            r.rules() is Empty,
    {
        Self { rules: CompatibilityRules::Empty }
    }

    /// Add a compatibility rule; it is checked after the rules added before it.
    pub fn add<R: AttributeCompatibilityRule<T> + 'static>(&mut self, rule: R)
        ensures
            final(self).rules() matches CompatibilityRules::Then(earlier, last) && *earlier == old(self).rules()
                && forall|c: Named<T>, p: Named<T>, v: Option<bool>| #[trigger] last.decides(c, p, v)
                    == rule.decides(c, p, v),
    {
        let mut earlier = CompatibilityRules::Empty;
        core::mem::swap(&mut earlier, &mut self.rules);
        self.rules = CompatibilityRules::Then(Box::new(earlier), Box::new(RuleOf { rule }));
    }

    /// Add the ordering of the attributes as a compatibility rule, where a consumer less than
    /// or equal to the producer is compatible and a greater one is not.
    pub fn ordered(&mut self)
        where
            T: PartialOrd + 'static,
        ensures
            final(self).rules() matches CompatibilityRules::Then(earlier, last) && *earlier == old(self).rules()
                && forall|c: Named<T>, p: Named<T>, v: Option<bool>| T::obeys_partial_cmp_spec() ==> (
                #[trigger] last.decides(c, p, v) <==> v == ordered_verdict(named_order(c, p))),
    {
        self.add(OrderedRule::<T> { _ty: PhantomData })
    }

    /// Add the ordering of the attributes as a compatibility rule, where a consumer greater
    /// than or equal to the producer is compatible and a less one is not.
    pub fn ordered_rev(&mut self)
        where
            T: PartialOrd + 'static,
        ensures
            final(self).rules() matches CompatibilityRules::Then(earlier, last) && *earlier == old(self).rules()
                && forall|c: Named<T>, p: Named<T>, v: Option<bool>| T::obeys_partial_cmp_spec() ==> (
                #[trigger] last.decides(c, p, v) <==> v == ordered_rev_verdict(named_order(c, p))),
    {
        self.add(OrderedRevRule::<T> { _ty: PhantomData })
    }

    /// The verdict of the rules, without the equality fallback.
    fn verdict_of(rules: &CompatibilityRules<T>, producer: &Named<T>, consumer: &Named<T>) -> (r: Option<bool>)
        ensures
            rules_verdict(*rules, *consumer, *producer, r),
        decreases rules,
    {
        match rules {
            CompatibilityRules::Empty => None,
            CompatibilityRules::Then(earlier, last) => {
                match Self::verdict_of(earlier, producer, consumer) {
                    Some(b) => Some(b),
                    None => {
                        let mut check = CompatibilityCheck::new(consumer, producer);
                        last.check_capability(&mut check);
                        check.is_compatible
                    },
                }
            },
        }
    }

    /// Check if two attributes are compatible.
    ///
    /// The first rule that decides gives the answer; when none does, the attributes are
    /// compatible exactly when they are equal.
    pub fn is_compatible(&self, producer: &Named<T>, consumer: &Named<T>) -> (r: bool)
        where
            T: PartialEq,
        ensures
            chain_verdict(self.rules(), *consumer, *producer, r),
    {
        match Self::verdict_of(&self.rules, producer, consumer) {
            Some(b) => b,
            None => producer.same_as(consumer),
        }
    }
}

/// Shorthand for adding compatiblity: the consumer named `consumer` is compatible with the
/// producers with one of the names `producer`.
pub struct IsCompatible<T> {
    _ty: PhantomData<T>,
    consumer: String,
    producer: Vec<String>,
}

impl<T> IsCompatible<T> {
    /// The name of the consumer.
    pub closed spec fn consumer_name(self) -> Seq<char> {
        self.consumer@
    }

    /// The names of the compatible producers.
    pub closed spec fn producer_names(self) -> Seq<Seq<char>> {
        views(self.producer@)
    }

    pub fn new(consumer: &str, producer: &[&str]) -> (r: Self)
        ensures
            r.consumer_name() == consumer@,
            r.producer_names() == producer@.map_values(|p: &str| p@),
    {
        let mut names: Vec<String> = Vec::new();
        let mut i: usize = 0;
        while i < producer.len()
            invariant
                i <= producer@.len(),
                views(names@) == producer@.take(i as int).map_values(|p: &str| p@),
            decreases producer@.len() - i,
        {
            let ghost before = names@;
            names.push(producer[i].to_owned());
            assert(views(names@) =~= views(before).push(producer@[i as int]@));
            assert(producer@.take(i + 1).map_values(|p: &str| p@) =~= producer@.take(i as int).map_values(
                |p: &str| p@,
            ).push(producer@[i as int]@));
            i = i + 1;
        }
        assert(producer@.take(producer@.len() as int) =~= producer@);
        Self { _ty: PhantomData, consumer: consumer.to_owned(), producer: names }
    }

    fn names_producer(&self, name: &str) -> (r: bool)
        ensures
            r == self.producer_names().contains(name@),
    {
        let mut i: usize = 0;
        while i < self.producer.len()
            invariant
                i <= self.producer@.len(),
                forall|k: int| 0 <= k < i ==> #[trigger] self.producer@[k]@ != name@,
            decreases self.producer@.len() - i,
        {
            if compare_text(self.producer[i].as_str(), name) == 0 {
                assert(self.producer_names()[i as int] == name@);
                return true;
            }
            i = i + 1;
        }
        proof {
            if self.producer_names().contains(name@) {
                let k = choose|k: int| 0 <= k < self.producer_names().len() && self.producer_names()[k] == name@;
                assert(self.producer@[k]@ == name@);
            }
        }
        false
    }
}

impl<T> AttributeCompatibilityRule<T> for IsCompatible<T> {
    open spec fn decides(&self, consumer: Named<T>, producer: Named<T>, verdict: Option<bool>) -> bool {
        verdict == (if self.consumer_name() == consumer.name_of() && self.producer_names().contains(
            producer.name_of(),
        ) {
            Some(true)
        } else {
            None
        })
    }

    fn check_capability(&self, check: &mut CompatibilityCheck<'_, T>) {
        let consumer_named = compare_text(self.consumer.as_str(), check.consumer().name()) == 0;
        if consumer_named && self.names_producer(check.producer().name()) {
            check.compatible()
        }
    }
}

/// The candidates of a disambiguation: the consumer, the compatible producers, and the closest
/// match chosen so far.
pub struct MultipleCandidates<'a, T> {
    consumer_value: &'a Named<T>,
    candidate_values: Vec<&'a Named<T>>,
    closest_match: Option<&'a Named<T>>,
}

impl<'a, T> MultipleCandidates<'a, T> {
    /// The consumer.
    pub closed spec fn consumer_of(self) -> Named<T> {
        *self.consumer_value
    }

    /// The candidates, in order.
    pub closed spec fn candidates_of(self) -> Seq<&'a Named<T>> {
        self.candidate_values@
    }

    /// The closest match chosen so far.
    pub closed spec fn chosen(self) -> Option<&'a Named<T>> {
        self.closest_match
    }

    fn new(consumer_value: &'a Named<T>, candidate_values: Vec<&'a Named<T>>) -> (r: Self)
        ensures
            r.consumer_of() == *consumer_value,
            r.candidates_of() == candidate_values@,
            r.chosen() is None,
    {
        Self { consumer_value, candidate_values, closest_match: None }
    }

    pub fn consumer_value(&self) -> (r: &'a Named<T>)
        ensures
            *r == self.consumer_of(),
    {
        self.consumer_value
    }

    pub fn candidate_values(&self) -> (r: &[&'a Named<T>])
        ensures
            r@ == self.candidates_of(),
    {
        self.candidate_values.as_slice()
    }

    /// Chooses `value` as the closest match.
    pub fn closest_match(&mut self, value: &'a Named<T>)
        ensures
            final(self).chosen() == Some(value),
            final(self).consumer_of() == old(self).consumer_of(),
            final(self).candidates_of() == old(self).candidates_of(),
    {
        self.closest_match = Some(value);
    }
}

/// A rule that may choose the closest of several candidates.
pub trait MultipleCandidatesRule<T> {
    /// Whether the rule can leave `chosen` as the closest match of the candidates.
    spec fn picks(&self, consumer: Named<T>, candidates: Seq<&Named<T>>, chosen: Option<&Named<T>>) -> bool;

    /// Try to disambiguate
    fn disambiguate(&self, details: &mut MultipleCandidates<'_, T>)
        requires
            old(details).chosen() is None,
        ensures
            final(details).consumer_of() == old(details).consumer_of(),
            final(details).candidates_of() == old(details).candidates_of(),
            self.picks(old(details).consumer_of(), old(details).candidates_of(), final(details).chosen()),
    ;
}

/// The index of the first candidate equal to the consumer, from index `i` on, or -1.
pub open spec fn first_equal<T: PartialEq>(consumer: Named<T>, candidates: Seq<&Named<T>>, i: int) -> int
    decreases candidates.len() - i,
{
    if i < 0 || i >= candidates.len() {
        -1
    } else if named_eq(*candidates[i], consumer) {
        i
    } else {
        first_equal(consumer, candidates, i + 1)
    }
}

/// Chooses the first candidate equal to the consumer.
pub struct Equality;

impl<T: PartialEq> MultipleCandidatesRule<T> for Equality {
    open spec fn picks(&self, consumer: Named<T>, candidates: Seq<&Named<T>>, chosen: Option<&Named<T>>) -> bool {
        T::obeys_eq_spec() ==> chosen == (if first_equal(consumer, candidates, 0) >= 0 {
            Some(candidates[first_equal(consumer, candidates, 0)])
        } else {
            None
        })
    }

    fn disambiguate(&self, multiple: &mut MultipleCandidates<'_, T>) {
        let found = first_equal_index(multiple.consumer_value(), multiple.candidate_values());
        if let Some(i) = found {
            let closest = multiple.candidate_values()[i];
            multiple.closest_match(closest);
        }
    }
}

/// The index of the first candidate equal to the consumer.
fn first_equal_index<T: PartialEq>(consumer: &Named<T>, candidates: &[&Named<T>]) -> (r: Option<usize>)
    ensures
        r matches Some(i) ==> i < candidates@.len(),
        T::obeys_eq_spec() ==> match r {
            Some(i) => first_equal(*consumer, candidates@, 0) == i,
            None => first_equal(*consumer, candidates@, 0) == -1,
        },
{
    let mut i: usize = 0;
    while i < candidates.len()
        invariant
            i <= candidates@.len(),
            T::obeys_eq_spec() ==> first_equal(*consumer, candidates@, i as int) == first_equal(
                *consumer,
                candidates@,
                0,
            ),
        decreases candidates@.len() - i,
    {
        if candidates[i].same_as(consumer) {
            return Some(i);
        }
        i = i + 1;
    }
    None
}

/// A disambiguation rule given by a closure, which looks at the consumer and the candidates and
/// may give the position of the closest one.
pub struct CandidatesFn<T, F: Fn(&Named<T>, &[&Named<T>]) -> Option<usize>> {
    func: F,
    _ty: PhantomData<T>,
}

/// The candidate at the position `o` gives, if it is a position of `candidates`.
pub open spec fn candidate_at<T>(candidates: Seq<&Named<T>>, o: Option<usize>) -> Option<&Named<T>> {
    match o {
        Some(i) => if i < candidates.len() {
            Some(candidates[i as int])
        } else {
            None
        },
        None => None,
    }
}

impl<T, F: Fn(&Named<T>, &[&Named<T>]) -> Option<usize>> CandidatesFn<T, F> {
    /// The closure can be called on every consumer and candidates.
    #[verifier::type_invariant]
    closed spec fn callable(self) -> bool {
        forall|c: &Named<T>, s: &[&Named<T>]| call_requires(self.func, (c, s))
    }

    /// The rule that `func` gives, called with the consumer and the candidates.
    pub fn new(func: F) -> (r: Self)
        requires
            forall|c: &Named<T>, s: &[&Named<T>]| call_requires(func, (c, s)),
        ensures
            r.func() == func,
    {
        CandidatesFn { func, _ty: PhantomData }
    }

    /// The closure of the rule.
    pub closed spec fn func(self) -> F {
        self.func
    }
}

impl<T, F: Fn(&Named<T>, &[&Named<T>]) -> Option<usize>> MultipleCandidatesRule<T> for CandidatesFn<T, F> {
    open spec fn picks(&self, consumer: Named<T>, candidates: Seq<&Named<T>>, chosen: Option<&Named<T>>) -> bool {
        exists|s: &[&Named<T>], o: Option<usize>|
            s@ == candidates && #[trigger] call_ensures(self.func(), (&consumer, s), o) && chosen == candidate_at(
                candidates,
                o,
            )
    }

    fn disambiguate(&self, details: &mut MultipleCandidates<'_, T>) {
        proof {
            use_type_invariant(self);
        }
        let consumer = details.consumer_value();
        let candidates = details.candidate_values();
        let o = (self.func)(consumer, candidates);
        assert(call_ensures(self.func(), (consumer, candidates), o));
        match o {
            Some(i) => {
                if i < candidates.len() {
                    let closest = candidates[i];
                    details.closest_match(closest);
                }
            },
            None => {},
        }
    }
}

/// The disambiguation rules of a chain: none, or the rules added before the last one, then
/// the last one.
#[verifier::reject_recursive_types(T)]
pub enum CandidateRules<T> {
    Empty,
    Then(Box<CandidateRules<T>>, Box<dyn MultipleCandidatesRule<T>>),
}

/// What the rules choose: the choice of the earliest rule that chooses, or none when no rule
/// does.
pub open spec fn rules_pick<T>(
    rules: CandidateRules<T>,
    consumer: Named<T>,
    candidates: Seq<&Named<T>>,
    r: Option<&Named<T>>,
) -> bool
    decreases rules,
{
    match rules {
        CandidateRules::Empty => r is None,
        CandidateRules::Then(earlier, last) => {
            ||| (r is Some && rules_pick(*earlier, consumer, candidates, r))
            ||| (rules_pick(*earlier, consumer, candidates, None) && last.picks(consumer, candidates, r))
        },
    }
}

/// Disambiguation rules are tried in the order they were added: a choice that the earlier
/// rules make stands after a rule is added, and the rule added last chooses where none of them
/// does.
pub proof fn earlier_choices_take_precedence<T>(
    rules: CandidateRules<T>,
    consumer: Named<T>,
    candidates: Seq<&Named<T>>,
    r: Option<&Named<T>>,
)
    requires
        rules is Then,
    ensures
        match rules {
            CandidateRules::Then(earlier, last) => {
                &&& r is Some && rules_pick(*earlier, consumer, candidates, r) ==> rules_pick(
                    rules,
                    consumer,
                    candidates,
                    r,
                )
                &&& rules_pick(*earlier, consumer, candidates, None) && last.picks(consumer, candidates, r)
                    ==> rules_pick(rules, consumer, candidates, r)
            },
            CandidateRules::Empty => true,
        },
{
}

/// A chain of one disambiguation rule chooses what the rule chooses.
pub proof fn single_rule_pick<T>(rules: CandidateRules<T>, consumer: Named<T>, candidates: Seq<&Named<T>>, r: Option<&Named<T>>)
    requires
        rules matches CandidateRules::Then(earlier, _) && *earlier is Empty,
    ensures
        match rules {
            CandidateRules::Then(_, last) => rules_pick(rules, consumer, candidates, r) <==> last.picks(
                consumer,
                candidates,
                r,
            ) && (r is Some || last.picks(consumer, candidates, None)),
            CandidateRules::Empty => true,
        },
{
    reveal_with_fuel(rules_pick, 2);
}

/// The disambiguation rules, tried in the order they were added.
#[verifier::reject_recursive_types(T)]
pub struct MultipleCandidatesChain<T> {
    chain: CandidateRules<T>,
}

impl<T> MultipleCandidatesChain<T> {
    /// The rules, the last added last.
    pub closed spec fn rules(self) -> CandidateRules<T> {
        self.chain
    }

    pub fn new() -> (r: Self)
        ensures
            r.rules() is Empty,
    {
        Self { chain: CandidateRules::Empty }
    }

    /// Add a disambiguation rule; it is tried after the rules added before it.
    pub fn add<R: MultipleCandidatesRule<T> + 'static>(&mut self, rule: R)
        ensures
            final(self).rules() matches CandidateRules::Then(earlier, last) && *earlier == old(self).rules()
                && forall|c: Named<T>, cands: Seq<&Named<T>>, o: Option<&Named<T>>| #[trigger] last.picks(c, cands, o)
                    == rule.picks(c, cands, o),
    {
        let mut earlier = CandidateRules::Empty;
        core::mem::swap(&mut earlier, &mut self.chain);
        self.chain = CandidateRules::Then(Box::new(earlier), Box::new(RuleOf { rule }));
    }

    /// Lets the rules choose, the earlier ones first.
    fn pick_with(rules: &CandidateRules<T>, details: &mut MultipleCandidates<'_, T>)
        requires
            old(details).chosen() is None,
        ensures
            final(details).consumer_of() == old(details).consumer_of(),
            final(details).candidates_of() == old(details).candidates_of(),
            rules_pick(*rules, old(details).consumer_of(), old(details).candidates_of(), final(details).chosen()),
        decreases rules,
    {
        match rules {
            CandidateRules::Empty => {},
            CandidateRules::Then(earlier, last) => {
                Self::pick_with(earlier, details);
                if details.closest_match.is_none() {
                    last.disambiguate(details);
                }
            },
        }
    }

    /// Chooses the closest of the candidates with the rules: the first rule that chooses gives
    /// the answer.
    pub fn try_disambiguate<'a>(&self, consumer: &'a Named<T>, candidates: Vec<&'a Named<T>>) -> (r: Option<&'a Named<T>>)
        ensures
            rules_pick(self.rules(), *consumer, candidates@, r),
    {
        let mut details = MultipleCandidates::new(consumer, candidates);
        Self::pick_with(&self.chain, &mut details);
        details.closest_match
    }
}

/// The producers kept by the verdicts `keep`, in order.
pub open spec fn kept<T>(producers: Seq<&Named<T>>, keep: Seq<bool>) -> Seq<&Named<T>>
    decreases producers.len(),
{
    if producers.len() == 0 || keep.len() == 0 {
        Seq::empty()
    } else if keep.last() {
        kept(producers.drop_last(), keep.drop_last()).push(producers.last())
    } else {
        kept(producers.drop_last(), keep.drop_last())
    }
}

/// The match found among `compatible` producers: none when there are none, the one when there
/// is one, else what the disambiguation rules choose.
pub open spec fn match_of<T>(
    disambiguation: CandidateRules<T>,
    consumer: Named<T>,
    compatible: Seq<&Named<T>>,
    r: Option<&Named<T>>,
) -> bool {
    if compatible.len() == 0 {
        r is None
    } else if compatible.len() == 1 {
        r == Some(compatible[0])
    } else {
        rules_pick(disambiguation, consumer, compatible, r)
    }
}

/// How producers are matched to a consumer: the compatibility rules, then the disambiguation
/// rules.
#[verifier::reject_recursive_types(T)]
pub struct AttributeSchema<T> {
    compatibility: AttributeCompatibilityChain<T>,
    disambiguation: MultipleCandidatesChain<T>,
}

impl<T> AttributeSchema<T> {
    /// The compatibility rules.
    pub closed spec fn compatibility_rules(self) -> CompatibilityRules<T> {
        self.compatibility.rules()
    }

    /// The disambiguation rules.
    pub closed spec fn disambiguation_rules(self) -> CandidateRules<T> {
        self.disambiguation.rules()
    }

    pub fn new() -> (r: Self)
        ensures
            r.compatibility_rules() is Empty,
            r.disambiguation_rules() is Empty,
    {
        Self { compatibility: AttributeCompatibilityChain::new(), disambiguation: MultipleCandidatesChain::new() }
    }

    pub fn compatibility(&self) -> (r: &AttributeCompatibilityChain<T>)
        ensures
            r.rules() == self.compatibility_rules(),
    {
        &self.compatibility
    }

    pub fn disambiguation(&self) -> (r: &MultipleCandidatesChain<T>)
        ensures
            r.rules() == self.disambiguation_rules(),
    {
        &self.disambiguation
    }

    pub fn compatibility_mut(&mut self) -> (r: &mut AttributeCompatibilityChain<T>)
        ensures
            r.rules() == old(self).compatibility_rules(),
            final(self).compatibility_rules() == final(r).rules(),
            final(self).disambiguation_rules() == old(self).disambiguation_rules(),
    {
        &mut self.compatibility
    }

    pub fn disambiguation_mut(&mut self) -> (r: &mut MultipleCandidatesChain<T>)
        ensures
            r.rules() == old(self).disambiguation_rules(),
            final(self).disambiguation_rules() == final(r).rules(),
            final(self).compatibility_rules() == old(self).compatibility_rules(),
    {
        &mut self.disambiguation
    }

    /// Attempt to find the matching producer for a given consumer: the producers compatible
    /// with it are kept, in order; none gives none, one gives that one, and more are
    /// disambiguated.
    pub fn find_match<'a>(&self, consumer: &'a Named<T>, producers: Vec<&'a Named<T>>) -> (r: Option<&'a Named<T>>)
        where
            T: PartialEq,
        ensures
            exists|keep: Seq<bool>|
                #![trigger kept(producers@, keep)]
                keep.len() == producers@.len()
                && (forall|i: int| 0 <= i < keep.len()
                    ==> chain_verdict(self.compatibility_rules(), *consumer, *producers@[i], #[trigger] keep[i]))
                && match_of(self.disambiguation_rules(), *consumer, kept(producers@, keep), r),
    {
        let mut compat_producers: Vec<&'a Named<T>> = Vec::new();
        let ghost mut keep: Seq<bool> = Seq::empty();
        let mut i: usize = 0;
        while i < producers.len()
            invariant
                i <= producers@.len(),
                keep.len() == i,
                forall|k: int| 0 <= k < i
                    ==> chain_verdict(self.compatibility.rules(), *consumer, *producers@[k], #[trigger] keep[k]),
                compat_producers@ == kept(producers@.take(i as int), keep),
            decreases producers@.len() - i,
        {
            let producer = producers[i];
            let b = self.compatibility.is_compatible(producer, consumer);
            let ghost before = keep;
            proof {
                keep = keep.push(b);
            }
            assert(producers@.take(i + 1).drop_last() =~= producers@.take(i as int));
            assert(producers@.take(i + 1).last() == producer);
            assert(keep.drop_last() =~= before);
            if b {
                compat_producers.push(producer);
            }
            i = i + 1;
        }
        assert(producers@.take(i as int) =~= producers@);
        let n = compat_producers.len();
        let r = if n == 0 {
            None
        } else if n == 1 {
            Some(compat_producers[0])
        } else {
            self.disambiguation.try_disambiguate(consumer, compat_producers)
        };
        assert(kept(producers@, keep) == kept(producers@, keep));
        r
    }
}

/// The producers equal to the consumer, in order.
pub open spec fn equal_producers<T: PartialEq>(consumer: Named<T>, producers: Seq<&Named<T>>) -> Seq<&Named<T>>
    decreases producers.len(),
{
    if producers.len() == 0 {
        Seq::empty()
    } else if named_eq(*producers.last(), consumer) {
        equal_producers(consumer, producers.drop_last()).push(producers.last())
    } else {
        equal_producers(consumer, producers.drop_last())
    }
}

proof fn lemma_kept_equal<T: PartialEq>(consumer: Named<T>, producers: Seq<&Named<T>>, keep: Seq<bool>)
    requires
        keep.len() == producers.len(),
        forall|i: int| 0 <= i < keep.len() ==> #[trigger] keep[i] == named_eq(*producers[i], consumer),
    ensures
        kept(producers, keep) == equal_producers(consumer, producers),
    decreases producers.len(),
{
    if producers.len() > 0 {
        let n = producers.len() - 1;
        assert(keep[n] == named_eq(*producers[n], consumer));
        assert forall|i: int| 0 <= i < keep.drop_last().len() implies #[trigger] keep.drop_last()[i] == named_eq(
            *producers.drop_last()[i],
            consumer,
        ) by {
            assert(keep[i] == named_eq(*producers[i], consumer));
        }
        lemma_kept_equal(consumer, producers.drop_last(), keep.drop_last());
    }
}

/// Without rules, a schema matches a consumer to a producer exactly when that producer is the
/// only one equal to the consumer; with none or several equal ones there is no match.
pub proof fn default_matching<T: PartialEq>(
    schema: AttributeSchema<T>,
    consumer: Named<T>,
    producers: Seq<&Named<T>>,
    r: Option<&Named<T>>,
)
    requires
        schema.compatibility_rules() is Empty,
        schema.disambiguation_rules() is Empty,
        T::obeys_eq_spec(),
        exists|keep: Seq<bool>|
            #![trigger kept(producers, keep)]
            keep.len() == producers.len()
            && (forall|i: int| 0 <= i < keep.len()
                ==> chain_verdict(schema.compatibility_rules(), consumer, *producers[i], #[trigger] keep[i]))
            && match_of(schema.disambiguation_rules(), consumer, kept(producers, keep), r),
    ensures
        r == (if equal_producers(consumer, producers).len() == 1 {
            Some(equal_producers(consumer, producers)[0])
        } else {
            None
        }),
{
    let keep = choose|keep: Seq<bool>|
        #![trigger kept(producers, keep)]
        keep.len() == producers.len()
        && (forall|i: int| 0 <= i < keep.len()
            ==> chain_verdict(schema.compatibility_rules(), consumer, *producers[i], #[trigger] keep[i]))
        && match_of(schema.disambiguation_rules(), consumer, kept(producers, keep), r);
    assert forall|i: int| 0 <= i < keep.len() implies #[trigger] keep[i] == named_eq(*producers[i], consumer) by {
        assert(chain_verdict(schema.compatibility_rules(), consumer, *producers[i], keep[i]));
    }
    lemma_kept_equal(consumer, producers, keep);
}

/// Container of [`Attribute`s](Attribute)
#[derive(Debug, Clone)]
pub struct AttributeContainer;

/// Something that carries attributes
pub trait HasAttributes {
    fn get_attributes(&self) -> &AttributeContainer;
}

/// Something that carries attributes and is configurable
pub trait ConfigurableAttributes: HasAttributes {
    fn attributes<F: FnOnce(&mut AttributeContainer)>(&mut self, func: F);
}

} // verus!
