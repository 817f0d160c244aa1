//! Identifiers are used by properties, tasks, and projects.
//!
//! An identifier is a path of parts, such as `root:inner:task`. Its view is the sequence of
//! its parts, topmost first.

use vstd::prelude::*;
use crate::text::{split_on, views, has_char, split_str, push_char, lemma_split_on_nonempty, comma_list, debug_str, debug_text_of};

verus! {

/// The separator between parts of an identifier
pub const ID_SEPARATOR: char = ':';

/// What the regular expression `pattern` finds first in `haystack` (the leftmost-first match
/// of `regex::Regex::find`), or `None` when there is no match or the pattern does not compile.
pub uninterp spec fn regex_first_match(pattern: Seq<char>, haystack: Seq<char>) -> Option<Seq<char>>;

/// Compiles `pattern` with `regex::Regex::new` and returns the text of the first match that
/// `regex::Regex::find` reports in `haystack`. The contract only names the result: what the
/// regular expression engine matches is not stated here.
#[verifier::external_body]
fn regex_find(pattern: &str, haystack: &str) -> (r: Option<String>)
    ensures
        match r {
            Some(s) => regex_first_match(pattern@, haystack@) == Some(s@),
            None => regex_first_match(pattern@, haystack@) is None,
        },
{
    regex::Regex::new(pattern).ok().and_then(|re| re.find(haystack).map(|m| m.as_str().to_string()))
}

/// The pattern every part of an identifier must match completely.
pub open spec fn id_pattern() -> Seq<char> {
    "[a-zA-Z][\\w-]*"@
}

/// A part of an identifier is valid when the first match of the identifier pattern in it is
/// the whole part.
pub open spec fn is_valid_part(s: Seq<char>) -> bool {
    regex_first_match(id_pattern(), s) == Some(s)
}

/// The pattern that the parts of identifiers must match is `[a-zA-Z][\w-]*`: a letter, then
/// any number of word characters or hyphens. A part is valid exactly when the first match of
/// that pattern in it is the whole part.
pub proof fn identifier_pattern_is_fixed(s: Seq<char>)
    ensures
        id_pattern() == seq!['[', 'a', '-', 'z', 'A', '-', 'Z', ']', '[', '\\', 'w', '-', ']', '*'],
        is_valid_part(s) <==> regex_first_match(
            seq!['[', 'a', '-', 'z', 'A', '-', 'Z', ']', '[', '\\', 'w', '-', ']', '*'],
            s,
        ) == Some(s),
{
    reveal_strlit("[a-zA-Z][\\w-]*");
    assert(id_pattern() =~= seq!['[', 'a', '-', 'z', 'A', '-', 'Z', ']', '[', '\\', 'w', '-', ']', '*']);
}

/// Whether every part is valid.
pub open spec fn all_valid(parts: Seq<Seq<char>>) -> bool {
    forall|i: int| 0 <= i < parts.len() ==> #[trigger] is_valid_part(parts[i])
}

/// Index of the first invalid part, if any.
pub open spec fn first_invalid(parts: Seq<Seq<char>>) -> int
    decreases parts.len(),
{
    if parts.len() == 0 {
        0
    } else if !is_valid_part(parts[0]) {
        0
    } else {
        1 + first_invalid(parts.drop_first())
    }
}

pub proof fn lemma_first_invalid(parts: Seq<Seq<char>>)
    ensures
        0 <= first_invalid(parts) <= parts.len(),
        forall|i: int| 0 <= i < first_invalid(parts) ==> #[trigger] is_valid_part(parts[i]),
        first_invalid(parts) < parts.len() ==> !is_valid_part(parts[first_invalid(parts)]),
        all_valid(parts) <==> first_invalid(parts) == parts.len(),
    decreases parts.len(),
{
    if parts.len() > 0 && is_valid_part(parts[0]) {
        lemma_first_invalid(parts.drop_first());
        assert forall|i: int| 0 <= i < first_invalid(parts) implies #[trigger] is_valid_part(parts[i]) by {
            if i > 0 {
                assert(parts[i] == parts.drop_first()[i - 1]);
            }
        }
        if first_invalid(parts) < parts.len() {
            assert(parts[first_invalid(parts)] == parts.drop_first()[first_invalid(parts.drop_first())]);
        }
        if !all_valid(parts.drop_first()) {
            let j = choose|j: int| 0 <= j < parts.drop_first().len() && !is_valid_part(parts.drop_first()[j]);
            assert(parts[j + 1] == parts.drop_first()[j]);
        }
        if all_valid(parts.drop_first()) {
            assert forall|i: int| 0 <= i < parts.len() implies #[trigger] is_valid_part(parts[i]) by {
                if i > 0 {
                    assert(parts[i] == parts.drop_first()[i - 1]);
                }
            }
        }
    }
}

pub proof fn lemma_first_invalid_at(parts: Seq<Seq<char>>, i: int)
    requires
        0 <= i < parts.len(),
        forall|j: int| 0 <= j < i ==> #[trigger] is_valid_part(parts[j]),
        !is_valid_part(parts[i]),
    ensures
        first_invalid(parts) == i,
    decreases i,
{
    if i > 0 {
        assert(is_valid_part(parts[0]));
        assert forall|j: int| 0 <= j < i - 1 implies #[trigger] is_valid_part(parts.drop_first()[j]) by {
            assert(parts.drop_first()[j] == parts[j + 1]);
        }
        lemma_first_invalid_at(parts.drop_first(), i - 1);
    }
}

/// Text joined with a leading separator before each part: `:a:b:c`.
pub open spec fn display_parts(parts: Seq<Seq<char>>) -> Seq<char>
    decreases parts.len(),
{
    if parts.len() == 0 {
        Seq::<char>::empty()
    } else {
        display_parts(parts.drop_last()) + seq![ID_SEPARATOR] + parts.last()
    }
}

proof fn lemma_display_concat(a: Seq<Seq<char>>, b: Seq<Seq<char>>)
    ensures
        display_parts(a + b) == display_parts(a) + display_parts(b),
    decreases b.len(),
{
    if b.len() == 0 {
        assert(a + b =~= a);
        assert(display_parts(a) + display_parts(b) =~= display_parts(a));
    } else {
        assert((a + b).drop_last() =~= a + b.drop_last());
        assert((a + b).last() == b.last());
        lemma_display_concat(a, b.drop_last());
        assert(display_parts(a + b) =~= display_parts(a) + display_parts(b));
    }
}

proof fn lemma_display_split(s: Seq<char>)
    ensures
        display_parts(split_on(s, ID_SEPARATOR)) == seq![ID_SEPARATOR] + s,
    decreases s.len(),
{
    if s.len() == 0 {
        let p = split_on(s, ID_SEPARATOR);
        assert(p == seq![Seq::<char>::empty()]);
        assert(p.drop_last() =~= Seq::<Seq<char>>::empty());
        assert(display_parts(p.drop_last()) == Seq::<char>::empty());
        assert(p.last() == Seq::<char>::empty());
        assert(display_parts(p) == display_parts(p.drop_last()) + seq![ID_SEPARATOR] + p.last());
        assert(display_parts(p) =~= seq![ID_SEPARATOR] + s);
    } else {
        let d = s.drop_last();
        lemma_display_split(d);
        lemma_split_on_nonempty(d, ID_SEPARATOR);
        let r = split_on(d, ID_SEPARATOR);
        if s.last() == ID_SEPARATOR {
            assert(split_on(s, ID_SEPARATOR).drop_last() =~= r);
            assert(display_parts(split_on(s, ID_SEPARATOR)) =~= seq![ID_SEPARATOR] + s);
        } else {
            let u = r.update(r.len() - 1, r.last().push(s.last()));
            assert(u.drop_last() =~= r.drop_last());
            assert(display_parts(r) == display_parts(r.drop_last()) + seq![ID_SEPARATOR] + r.last());
            assert(display_parts(u) =~= display_parts(r).push(s.last()));
            assert(display_parts(split_on(s, ID_SEPARATOR)) =~= seq![ID_SEPARATOR] + s);
        }
    }
}

/// Joining text to an identifier appends it to the identifier's text: the parts of `next`
/// after the parts of `x` read as the text of `x`, the separator, and `next`.
pub proof fn joined_text(x: Seq<Seq<char>>, next: Seq<char>)
    ensures
        display_parts(x + split_on(next, ID_SEPARATOR)) == display_parts(x) + seq![ID_SEPARATOR] + next,
{
    lemma_display_concat(x, split_on(next, ID_SEPARATOR));
    lemma_display_split(next);
    assert(display_parts(x) + (seq![ID_SEPARATOR] + next) =~= display_parts(x) + seq![ID_SEPARATOR] + next);
}

/// Represents some identifier in an assemble project.
///
/// Acts like a path. Consists for two parts, the `this` part and the `parent`. For example, in
/// `root:inner:task`, the `this` is `task` and the `parent` is `root:inner`.
#[derive(Debug)]
pub struct Id {
    parent: Option<Box<Id>>,
    this: String,
}

impl Id {
    /// The parts of the identifier, topmost first.
    pub closed spec fn parts(self) -> Seq<Seq<char>>
        decreases self,
    {
        match self.parent {
            None => seq![self.this@],
            Some(p) => p.parts().push(self.this@),
        }
    }

    pub proof fn lemma_parts_nonempty(self)
        ensures
            self.parts().len() >= 1,
            self.parts().last() == self.this_spec(),
        decreases self,
    {
        match self.parent {
            None => {},
            Some(p) => {
                p.lemma_parts_nonempty();
            },
        }
    }

    /// The last part.
    pub closed spec fn this_spec(self) -> Seq<char> {
        self.this@
    }

    /// The parent identifier, when there is one.
    pub closed spec fn parent_spec(self) -> Option<Id> {
        match self.parent {
            None => None,
            Some(p) => Some(*p),
        }
    }

    pub proof fn lemma_parent(self)
        ensures
            self.parts().len() == 1 <==> self.parent_spec() is None,
            self.parent_spec() matches Some(p) ==> p.parts() == self.parts().drop_last(),
    {
        match self.parent {
            None => {},
            Some(p) => {
                p.lemma_parts_nonempty();
                assert(self.parts().drop_last() =~= p.parts());
            },
        }
    }
}

impl View for Id {
    type V = Seq<Seq<char>>;

    open spec fn view(&self) -> Seq<Seq<char>> {
        self.parts()
    }
}

/// Builds the identifier whose parts are `parts`.
fn id_from_parts(parts: &Vec<String>) -> (r: Id)
    requires
        parts.len() >= 1,
    ensures
        r@ == views(parts@),
{
    let mut out = Id { parent: None, this: parts[0].clone() };
    let mut i: usize = 1;
    assert(views(parts@).take(1) =~= seq![parts@[0]@]);
    while i < parts.len()
        invariant
            1 <= i <= parts.len(),
            out@ == views(parts@).take(i as int),
        decreases parts.len() - i,
    {
        out = Id { parent: Some(Box::new(out)), this: parts[i].clone() };
        assert(views(parts@).take(i + 1) =~= views(parts@).take(i as int).push(parts@[i as int]@));
        i = i + 1;
    }
    assert(views(parts@).take(parts.len() as int) =~= views(parts@));
    out
}

impl Clone for Id {
    fn clone(&self) -> (r: Self)
        ensures
            r@ == self@,
        decreases self,
    {
        match &self.parent {
            None => Id { parent: None, this: self.this.clone() },
            Some(p) => {
                let q: &Id = p;
                let c = q.clone();
                Id { parent: Some(Box::new(c)), this: self.this.clone() }
            },
        }
    }
}

impl Id {
    /// Create a new id from text whose parts are separated by `:`.
    ///
    /// # Error
    /// Errors if it isn't a valid identifier; the error holds the first invalid part.
    pub fn new(val: &str) -> (r: Result<Self, InvalidId>)
        ensures
            r is Ok <==> all_valid(split_on(val@, ID_SEPARATOR)),
            r matches Ok(id) ==> id@ == split_on(val@, ID_SEPARATOR),
            r matches Err(e) ==> e.0@ == split_on(val@, ID_SEPARATOR)[first_invalid(
                split_on(val@, ID_SEPARATOR),
            )],
    {
        let split = split_str(val, ID_SEPARATOR);
        proof {
            lemma_split_on_nonempty(val@, ID_SEPARATOR);
        }
        Self::from_parts(&split)
    }

    /// Create a new id whose text is known to be valid.
    pub fn new_uncheckable(val: &str) -> (r: Self)
        requires
            all_valid(split_on(val@, ID_SEPARATOR)),
        ensures
            r@ == split_on(val@, ID_SEPARATOR),
    {
        match Self::new(val) {
            Ok(id) => id,
            Err(_) => {
                assert(false);
                Id { parent: None, this: String::new() }
            },
        }
    }

    /// Try to create an Id from a list of parts. Each part must be a valid **part** of an
    /// identifier.
    pub fn from_iter(parts: &[&str]) -> (r: Result<Self, InvalidId>)
        ensures
            ({
                let v = parts@.map_values(|p: &str| p@);
                &&& r is Ok <==> (v.len() > 0 && all_valid(v))
                &&& r matches Ok(id) ==> id@ == v
                &&& r matches Err(e) ==> (if v.len() == 0 {
                    e.0@ == Seq::<char>::empty()
                } else {
                    e.0@ == v[first_invalid(v)]
                })
            }),
    {
        let mut owned: Vec<String> = Vec::new();
        let mut i: usize = 0;
        while i < parts.len()
            invariant
                i <= parts.len(),
                views(owned@) == parts@.map_values(|p: &str| p@).take(i as int),
            decreases parts.len() - i,
        {
            let s = parts[i].to_owned();
            let ghost prev = owned@;
            owned.push(s);
            assert(views(owned@) =~= views(prev).push(s@));
            assert(parts@.map_values(|p: &str| p@).take(i + 1) =~= parts@.map_values(|p: &str| p@).take(i as int).push(parts@[i as int]@));
            i = i + 1;
        }
        assert(parts@.map_values(|p: &str| p@).take(parts.len() as int) =~= parts@.map_values(
            |p: &str| p@,
        ));
        if owned.len() == 0 {
            proof {
                reveal_strlit("");
            }
            return Err(InvalidId::new(""));
        }
        Self::from_parts(&owned)
    }

    /// Checks each part and builds the identifier.
    fn from_parts(parts: &Vec<String>) -> (r: Result<Self, InvalidId>)
        ensures
            r is Ok <==> (parts.len() > 0 && all_valid(views(parts@))),
            r matches Ok(id) ==> id@ == views(parts@),
            r matches Err(e) ==> (if parts.len() == 0 {
                e.0@ == Seq::<char>::empty()
            } else {
                e.0@ == views(parts@)[first_invalid(views(parts@))]
            }),
    {
        if parts.len() == 0 {
            proof {
                reveal_strlit("");
            }
            return Err(InvalidId::new(""));
        }
        let mut i: usize = 0;
        proof {
            lemma_first_invalid(views(parts@));
        }
        while i < parts.len()
            invariant
                i <= parts.len(),
                forall|j: int| 0 <= j < i ==> #[trigger] is_valid_part(views(parts@)[j]),
                0 <= first_invalid(views(parts@)) <= parts.len(),
                forall|j: int| 0 <= j < first_invalid(views(parts@)) ==> #[trigger] is_valid_part(views(parts@)[j]),
                first_invalid(views(parts@)) < parts.len() ==> !is_valid_part(views(parts@)[first_invalid(views(parts@))]),
                all_valid(views(parts@)) <==> first_invalid(views(parts@)) == parts.len(),
            decreases parts.len() - i,
        {
            let checked = is_valid_identifier(parts[i].as_str());
            if checked.is_err() {
                proof {
                    lemma_first_invalid_at(views(parts@), i as int);
                }
                return Err(InvalidId::new(parts[i].as_str()));
            }
            i = i + 1;
        }
        assert(all_valid(views(parts@)));
        Ok(id_from_parts(parts))
    }

    /// An identifier with a single, checked part.
    fn new_unit(id: &str) -> (r: Result<Self, InvalidId>)
        ensures
            r is Ok <==> is_valid_part(id@),
            r matches Ok(i) ==> i@ == seq![id@],
            r matches Err(e) ==> e.0@ == id@,
    {
        match is_valid_identifier(id) {
            Ok(()) => Ok(Id { parent: None, this: id.to_owned() }),
            Err(e) => Err(e),
        }
    }

    /// Joins something that can be turned into an identifier to the end of this Id.
    ///
    /// # Error
    /// Errors if the next is not a valid identifier
    pub fn join(&self, next: &str) -> (r: Result<Self, InvalidId>)
        ensures
            r is Ok <==> all_valid(split_on(next@, ID_SEPARATOR)),
            r matches Ok(id) ==> id@ == self@ + split_on(next@, ID_SEPARATOR),
            r matches Err(e) ==> e.0@ == split_on(next@, ID_SEPARATOR)[first_invalid(
                split_on(next@, ID_SEPARATOR),
            )],
    {
        match Id::new(next) {
            Ok(id) => Ok(self.clone().concat(id)),
            Err(e) => Err(e),
        }
    }

    /// Concatenate two Id's together
    pub fn concat(self, other: Self) -> (r: Self)
        ensures
            r@ == self@ + other@,
    {
        let mut other = other;
        other.insert_as_topmost(self);
        other
    }

    /// Puts `parent` above the topmost part of this identifier.
    fn insert_as_topmost(&mut self, parent: Self)
        ensures
            final(self)@ == parent@ + old(self)@,
        decreases old(self).parts().len(),
    {
        proof {
            self.lemma_parts_nonempty();
        }
        match self.parent.take() {
            Some(p) => {
                let mut inner: Id = *p;
                proof {
                    inner.lemma_parts_nonempty();
                    assert(old(self).parts() =~= inner.parts().push(old(self).this@));
                }
                inner.insert_as_topmost(parent);
                self.parent = Some(Box::new(inner));
                assert(self@ =~= parent@ + old(self)@);
            },
            None => {
                self.parent = Some(Box::new(parent));
                assert(self@ =~= parent@ + old(self)@);
            },
        }
    }

    /// Returns this part of an identifier path.
    pub fn this(&self) -> (r: &str)
        ensures
            r@ == self@.last(),
    {
        proof {
            self.lemma_parts_nonempty();
        }
        self.this.as_str()
    }

    /// Returns this part of an identifier path as an [`Id`](Id)
    pub fn this_id(&self) -> (r: Self)
        requires
            is_valid_part(self@.last()),
        ensures
            r@ == seq![self@.last()],
    {
        proof {
            self.lemma_parts_nonempty();
        }
        match Self::new_unit(self.this.as_str()) {
            Ok(id) => id,
            Err(_) => {
                assert(false);
                Id { parent: None, this: String::new() }
            },
        }
    }

    /// Returns the parent identifier of this id, if it exists.
    pub fn parent(&self) -> (r: Option<&Id>)
        ensures
            r is None <==> self@.len() == 1,
            r matches Some(p) ==> p@ == self@.drop_last(),
    {
        proof {
            self.lemma_parent();
        }
        match &self.parent {
            None => None,
            Some(p) => Some(&**p),
        }
    }

    /// Check if the given representation is a valid shorthand: its last parts are the parts of
    /// this identifier.
    pub fn is_shorthand(&self, repr: &str) -> (r: bool)
        ensures
            r == is_suffix_of(self@, split_on(repr@, ID_SEPARATOR)),
    {
        let shorthands = split_str(repr, ID_SEPARATOR);
        let ancestors = self.ancestors();
        let n = ancestors.len();
        let m = shorthands.len();
        let ghost s = views(shorthands@);
        let ghost a = self@;
        let mut i: usize = 0;
        while i < n
            invariant
                n == a.len(),
                m == s.len(),
                m == shorthands@.len(),
                s == views(shorthands@),
                s == split_on(repr@, ID_SEPARATOR),
                a == self@,
                i <= n,
                forall|k: int| 0 <= k < ancestors@.len() ==> #[trigger] ancestors@[k]@ == a.take(a.len() - k),
                ancestors@.len() == n,
                i <= m,
                forall|k: int| n - i <= k < n ==> #[trigger] a[k] == s[m - n + k],
            decreases n - i,
        {
            if i >= m {
                assert(!is_suffix_of(a, s));
                return false;
            }
            let anc = ancestors[i];
            proof {
                anc.lemma_parts_nonempty();
            }
            if !anc.is_shorthand_this(shorthands[m - 1 - i].as_str()) {
                assert(a.take(a.len() - i as int).last() == a[n - 1 - i]);
                assert(!is_suffix_of(a, s)) by {
                    if is_suffix_of(a, s) {
                        assert(s[s.len() - a.len() + (n - 1 - i)] == a[n - 1 - i]);
                    }
                }
                return false;
            }
            assert(a.take(a.len() - i as int).last() == a[n - 1 - i]);
            i = i + 1;
        }
        assert(is_suffix_of(a, s)) by {
            assert forall|k: int| 0 <= k < a.len() implies #[trigger] s[s.len() - a.len() + k] == a[k] by {
                assert(a[k] == s[m - n + k]);
            }
        }
        true
    }

    /// Whether `repr` is this part of the identifier.
    pub fn is_shorthand_this(&self, repr: &str) -> (r: bool)
        ensures
            r == (self@.last() == repr@),
    {
        proof {
            self.lemma_parts_nonempty();
        }
        str_eq(self.this.as_str(), repr)
    }

    /// Gets the ancestors of this id, this id first.
    ///
    /// For example, the ancestors of `root:inner:task` would be
    /// - `root:inner:task`
    /// - `root:inner`
    /// - `root`
    pub fn ancestors(&self) -> (r: Vec<&Id>)
        ensures
            r.len() == self@.len(),
            forall|k: int| 0 <= k < r.len() ==> #[trigger] r@[k]@ == self@.take(self@.len() - k),
    {
        let mut out: Vec<&Id> = Vec::new();
        let mut ptr: &Id = self;
        proof {
            self.lemma_parts_nonempty();
            assert(self@.take(self@.len() as int) =~= self@);
        }
        out.push(ptr);
        loop
            invariant
                1 <= out.len() <= self@.len(),
                ptr@ == self@.take(self@.len() - (out.len() - 1)),
                forall|k: int| 0 <= k < out.len() ==> #[trigger] out@[k]@ == self@.take(self@.len() - k),
            ensures
                out.len() == self@.len(),
                forall|k: int| 0 <= k < out.len() ==> #[trigger] out@[k]@ == self@.take(self@.len() - k),
            decreases ptr@.len(),
        {
            proof {
                ptr.lemma_parent();
                ptr.lemma_parts_nonempty();
            }
            match &ptr.parent {
                None => {
                    break;
                },
                Some(p) => {
                    let q: &Id = &**p;
                    proof {
                        assert(q@ == ptr@.drop_last());
                        assert(self@.take(self@.len() - (out.len() - 1)).drop_last() =~= self@.take(
                            self@.len() - out.len(),
                        ));
                    }
                    out.push(q);
                    ptr = q;
                },
            }
        }
        out
    }

    /// An iterator over the parts of the identifier, topmost first.
    pub fn iter(&self) -> (r: Iter<'_>)
        ensures
            r.remaining() == self@,
    {
        Iter::new(self)
    }

    /// The parts of the identifier joined as a relative file path, `a/b/c`.
    pub fn as_path(&self) -> (r: String)
        ensures
            r@ == join_parts(self@, '/'),
    {
        let ancestors = self.ancestors();
        let n = ancestors.len();
        let mut out = String::new();
        let mut i: usize = 0;
        while i < n
            invariant
                n == self@.len(),
                ancestors@.len() == n,
                forall|k: int| 0 <= k < n ==> #[trigger] ancestors@[k]@ == self@.take(self@.len() - k),
                i <= n,
                out@ == join_parts(self@.take(i as int), '/'),
            decreases n - i,
        {
            let anc = ancestors[n - 1 - i];
            proof {
                anc.lemma_parts_nonempty();
                assert(anc@ == self@.take(i + 1));
                assert(self@.take(i + 1).drop_last() =~= self@.take(i as int));
            }
            if i > 0 {
                push_char(&mut out, '/');
            }
            out.append(anc.this.as_str());
            i = i + 1;
        }
        assert(self@.take(n as int) =~= self@);
        out
    }

    /// The text form, with a separator before every part: `:root:inner:task`.
    pub fn to_string(&self) -> (r: String)
        ensures
            r@ == display_parts(self@),
    {
        let ancestors = self.ancestors();
        let n = ancestors.len();
        let mut out = String::new();
        let mut i: usize = 0;
        assert(self@.take(0) =~= Seq::<Seq<char>>::empty());
        while i < n
            invariant
                n == self@.len(),
                ancestors@.len() == n,
                forall|k: int| 0 <= k < n ==> #[trigger] ancestors@[k]@ == self@.take(self@.len() - k),
                i <= n,
                out@ == display_parts(self@.take(i as int)),
            decreases n - i,
        {
            let anc = ancestors[n - 1 - i];
            proof {
                anc.lemma_parts_nonempty();
                assert(anc@ == self@.take(i + 1));
                assert(self@.take(i + 1).drop_last() =~= self@.take(i as int));
            }
            push_char(&mut out, ID_SEPARATOR);
            out.append(anc.this.as_str());
            i = i + 1;
        }
        assert(self@.take(n as int) =~= self@);
        out
    }

    /// Whether two identifiers have the same parts.
    pub fn same_as(&self, other: &Id) -> (r: bool)
        ensures
            r == (self@ == other@),
        decreases self,
    {
        proof {
            self.lemma_parent();
            other.lemma_parent();
            self.lemma_parts_nonempty();
            other.lemma_parts_nonempty();
        }
        if self.this != other.this {
            return false;
        }
        match (&self.parent, &other.parent) {
            (None, None) => {
                assert(self@ =~= other@);
                true
            },
            (Some(a), Some(b)) => {
                let a: &Id = &**a;
                let b: &Id = &**b;
                let r = a.same_as(b);
                proof {
                    if r {
                        assert(self@ =~= a@.push(self@.last()));
                        assert(other@ =~= b@.push(other@.last()));
                    } else {
                        assert(self@.drop_last() != other@.drop_last());
                    }
                }
                r
            },
            (None, Some(_)) => {
                assert(self@.len() != other@.len());
                false
            },
            (Some(_), None) => {
                assert(self@.len() != other@.len());
                false
            },
        }
    }

    /// Whether the text `other` parses to this identifier.
    pub fn eq_str(&self, other: &str) -> (r: bool)
        ensures
            r == (all_valid(split_on(other@, ID_SEPARATOR)) && self@ == split_on(other@, ID_SEPARATOR)),
    {
        match Id::new(other) {
            Ok(id) => self.same_as(&id),
            Err(_) => false,
        }
    }
}

impl Default for Id {
    fn default() -> (r: Self)
        ensures
            r@ == seq![Seq::<char>::empty()],
    {
        Id { parent: None, this: String::new() }
    }
}

impl PartialEq for Id {
    fn eq(&self, other: &Self) -> (r: bool) {
        self.same_as(other)
    }
}

impl vstd::std_specs::cmp::PartialEqSpecImpl for Id {
    open spec fn obeys_eq_spec() -> bool {
        true
    }

    open spec fn eq_spec(&self, other: &Id) -> bool {
        self@ == other@
    }
}

impl Eq for Id {
}

/// Text equality of two string slices.
pub fn str_eq(a: &str, b: &str) -> (r: bool)
    ensures
        r == (a@ == b@),
{
    crate::text::compare_text(a, b) == 0
}

/// Whether `a` is a suffix of `s`.
pub open spec fn is_suffix_of(a: Seq<Seq<char>>, s: Seq<Seq<char>>) -> bool {
    &&& a.len() <= s.len()
    &&& forall|k: int| 0 <= k < a.len() ==> #[trigger] s[s.len() - a.len() + k] == a[k]
}

/// Parts joined with `sep` between them.
pub open spec fn join_parts(parts: Seq<Seq<char>>, sep: char) -> Seq<char>
    decreases parts.len(),
{
    if parts.len() == 0 {
        Seq::<char>::empty()
    } else if parts.len() == 1 {
        parts[0]
    } else {
        join_parts(parts.drop_last(), sep) + seq![sep] + parts.last()
    }
}

/// Joins texts with `sep` between them.
pub fn join_text(parts: &Vec<String>, sep: char) -> (r: String)
    ensures
        r@ == join_parts(views(parts@), sep),
{
    let ghost p = views(parts@);
    let mut out = String::new();
    let mut i: usize = 0;
    assert(p.take(0) =~= Seq::<Seq<char>>::empty());
    while i < parts.len()
        invariant
            p == views(parts@),
            i <= parts.len(),
            out@ == join_parts(p.take(i as int), sep),
        decreases parts.len() - i,
    {
        assert(p.take(i + 1).drop_last() =~= p.take(i as int));
        assert(p.take(i + 1).last() == parts@[i as int]@);
        if i > 0 {
            push_char(&mut out, sep);
        } else {
            assert(p.take(1) =~= seq![parts@[0]@]);
        }
        out.append(parts[i].as_str());
        i = i + 1;
    }
    assert(p.take(parts.len() as int) =~= p);
    out
}

/// Iterates over the parts of an identifier, topmost first.
pub struct Iter<'id> {
    ids: Vec<&'id Id>,
}

impl<'i> Iter<'i> {
    /// The parts not yet returned.
    pub closed spec fn remaining(self) -> Seq<Seq<char>> {
        Seq::new(self.ids@.len(), |k: int| self.ids@[self.ids@.len() - 1 - k]@.last())
    }

    fn new(id: &'i Id) -> (r: Self)
        ensures
            r.remaining() == id@,
    {
        let ancestors = id.ancestors();
        let r = Self { ids: ancestors };
        assert forall|k: int| 0 <= k < id@.len() implies #[trigger] r.remaining()[k] == id@[k] by {
            let a = ancestors@[ancestors@.len() - 1 - k];
            assert(a@ == id@.take(k + 1));
        }
        assert(r.remaining() =~= id@);
        r
    }

    /// The next part, topmost first.
    pub fn next(&mut self) -> (r: Option<&'i str>)
        ensures
            old(self).remaining().len() == 0 ==> r is None && final(self).remaining().len() == 0,
            old(self).remaining().len() > 0 ==> (r matches Some(s) && s@ == old(self).remaining()[0]
                && final(self).remaining() == old(self).remaining().drop_first()),
    {
        match self.ids.pop() {
            None => None,
            Some(top) => {
                let r = top.this();
                assert(self.remaining() =~= old(self).remaining().drop_first());
                Some(r)
            },
        }
    }
}

/// Decides whether a part is a valid identifier from the first match of the identifier
/// pattern in it.
pub fn check_identifier_match(id: &str, found: Option<String>) -> (r: Result<(), InvalidId>)
    ensures
        r is Ok <==> (found matches Some(m) && m@ == id@),
        r matches Err(e) ==> e.0@ == id@,
{
    match found {
        Some(m) => {
            if str_eq(m.as_str(), id) {
                Ok(())
            } else {
                Err(InvalidId::new(id))
            }
        },
        None => Err(InvalidId::new(id)),
    }
}

/// Checks that the whole of `id` matches the identifier pattern `[a-zA-Z][\w-]*`.
pub fn is_valid_identifier(id: &str) -> (r: Result<(), InvalidId>)
    ensures
        r is Ok <==> is_valid_part(id@),
        r matches Err(e) ==> e.0@ == id@,
{
    let found = regex_find("[a-zA-Z][\\w-]*", id);
    check_identifier_match(id, found)
}

/// An identifier that is not valid; holds the text that was refused.
#[derive(Debug)]
pub struct InvalidId(pub String);

impl InvalidId {
    pub fn new(string: &str) -> (r: Self)
        ensures
            r.0@ == string@,
    {
        Self(string.to_owned())
    }

    /// The message shown for this error: the refused text, as `Debug` shows it.
    pub fn to_string(&self) -> (r: String)
        ensures
            r@ == "Invalid Task Identifier "@ + debug_text_of(self.0@),
    {
        let mut s = "Invalid Task Identifier ".to_owned();
        let shown = debug_str(self.0.as_str());
        s.append(shown.as_str());
        s
    }
}


/// Whether the piece at position `k` of a `/`-separated path is a component of the path:
/// empty pieces and `.` pieces are dropped, except a `.` at the very start.
pub open spec fn keeps_piece(k: int, piece: Seq<char>) -> bool {
    piece.len() > 0 && (piece != seq!['.'] || k == 0)
}

/// The components of a path given as its `/`-separated pieces.
pub open spec fn path_components(pieces: Seq<Seq<char>>) -> Seq<Seq<char>>
    decreases pieces.len(),
{
    if pieces.len() == 0 {
        Seq::<Seq<char>>::empty()
    } else if keeps_piece(pieces.len() - 1, pieces.last()) {
        path_components(pieces.drop_last()).push(pieces.last())
    } else {
        path_components(pieces.drop_last())
    }
}

/// The components of a `/`-separated path, as `Path::components` gives them on Unix: empty
/// pieces and `.` pieces are dropped, except a `.` at the very start.
pub fn path_parts(path: &str) -> (r: Vec<String>)
    ensures
        views(r@) == path_components(split_on(path@, '/')),
{
    let pieces = split_str(path, '/');
    let ghost p = views(pieces@);
    let mut comps: Vec<String> = Vec::new();
    let mut i: usize = 0;
    assert(p.take(0) =~= Seq::<Seq<char>>::empty());
    while i < pieces.len()
        invariant
            p == views(pieces@),
            i <= pieces.len(),
            views(comps@) == path_components(p.take(i as int)),
        decreases pieces.len() - i,
    {
        let piece = pieces[i].clone();
        assert(p.take(i + 1).drop_last() =~= p.take(i as int));
        assert(p.take(i + 1).last() == piece@);
        let keep = piece.unicode_len() > 0 && (!is_dot(&piece) || i == 0);
        if keep {
            let ghost prev = comps@;
            comps.push(piece);
            assert(views(comps@) =~= views(prev).push(piece@));
        }
        i = i + 1;
    }
    assert(p.take(pieces.len() as int) =~= p);
    comps
}

/// Text equality of a string and a literal dot.
fn is_dot(s: &String) -> (r: bool)
    ensures
        r == (s@ == seq!['.']),
{
    let dot = ".";
    proof {
        reveal_strlit(".");
        assert(dot@ =~= seq!['.']);
    }
    str_eq(s.as_str(), dot)
}

/// How tasks are referenced throughout projects.
///
/// All tasks **must** have an associated TaskId.
#[derive(Debug)]
pub struct TaskId(pub Id);

impl View for TaskId {
    type V = Seq<Seq<char>>;

    open spec fn view(&self) -> Seq<Seq<char>> {
        self.0@
    }
}

/// A property made from a task's identifier is named under the task: the task's identifier
/// comes first, then at least one part, the parts of the property's name.
pub proof fn task_prop_is_named_under_task<T>(task: TaskId, name: Seq<char>, p: crate::lazy_evaluation::Prop<T>)
    requires
        p.id_parts() == task@ + split_on(name, ID_SEPARATOR),
    ensures
        p.id_parts().take(task@.len() as int) == task@,
        p.id_parts().skip(task@.len() as int) == split_on(name, ID_SEPARATOR),
        p.id_parts().len() > task@.len(),
{
    crate::text::lemma_split_on_nonempty(name, ID_SEPARATOR);
    assert(p.id_parts().take(task@.len() as int) =~= task@);
    assert(p.id_parts().skip(task@.len() as int) =~= split_on(name, ID_SEPARATOR));
}

impl TaskId {
    pub fn new(s: &str) -> (r: Result<TaskId, InvalidId>)
        ensures
            r is Ok <==> all_valid(split_on(s@, ID_SEPARATOR)),
            r matches Ok(id) ==> id@ == split_on(s@, ID_SEPARATOR),
            r matches Err(e) ==> e.0@ == split_on(s@, ID_SEPARATOR)[first_invalid(
                split_on(s@, ID_SEPARATOR),
            )],
    {
        match Id::new(s) {
            Ok(id) => Ok(TaskId(id)),
            Err(e) => Err(e),
        }
    }

    /// The identifier of the task.
    pub fn id(&self) -> (r: &Id)
        ensures
            r@ == self@,
    {
        &self.0
    }

    pub fn prop<T>(&self, name: &str, store: &mut crate::lazy_evaluation::PropStore<T>) -> (r: Result<
        crate::lazy_evaluation::Prop<T>,
        InvalidId,
    >)
        requires
            old(store)@.len() < usize::MAX,
        ensures
            r is Ok <==> all_valid(split_on(name@, ID_SEPARATOR)),
            r matches Ok(p) ==> p.id_parts() == self@ + split_on(name@, ID_SEPARATOR) && p.index()
                == old(store)@.len() && final(store)@ == old(store)@.push(
                crate::lazy_evaluation::PropCell::Unset,
            ),
            r is Err ==> final(store)@ == old(store)@,
    {
        match self.0.join(name) {
            Ok(id) => Ok(crate::lazy_evaluation::Prop::new(id, store)),
            Err(e) => Err(e),
        }
    }

    pub fn vec_prop<T>(&self, name: &str) -> (r: Result<crate::lazy_evaluation::VecProp<T>, InvalidId>)
        ensures
            r is Ok <==> all_valid(split_on(name@, ID_SEPARATOR)),
            r matches Ok(p) ==> p.id_parts() == self@ + split_on(name@, ID_SEPARATOR) && p.entries().len() == 0,
            r matches Err(e) ==> e.0@ == split_on(name@, ID_SEPARATOR)[first_invalid(split_on(name@, ID_SEPARATOR))],
    {
        match self.0.join(name) {
            Ok(id) => Ok(crate::lazy_evaluation::VecProp::new(id)),
            Err(e) => Err(e),
        }
    }

    /// Parses a task id written as `:part:part`. Unlike `new`, the text must start with the
    /// separator.
    pub fn from_str(s: &str) -> (r: Result<Self, InvalidId>)
        ensures
            r is Ok <==> parses_as_absolute(s@),
            r matches Ok(id) ==> id@ == split_on(s@.drop_first(), ID_SEPARATOR),
            r matches Err(e) ==> e.0@ == absolute_error(s@),
    {
        match parse_absolute(s) {
            Ok(id) => Ok(TaskId(id)),
            Err(e) => Err(e),
        }
    }

    /// The text form, `:project:task`.
    pub fn to_string(&self) -> (r: String)
        ensures
            r@ == display_parts(self@),
    {
        self.0.to_string()
    }

    /// The debugging text: the text form in double quotes.
    pub fn debug_text(&self) -> (r: String)
        ensures
            r@ == quoted(display_parts(self@)),
    {
        let mut out = String::new();
        push_char(&mut out, '"');
        let text = self.0.to_string();
        out.append(text.as_str());
        push_char(&mut out, '"');
        out
    }
}

/// A text in double quotes.
pub open spec fn quoted(s: Seq<char>) -> Seq<char> {
    seq!['"'] + s + seq!['"']
}

/// The debugging texts of a list of task identifiers.
pub open spec fn task_debug_texts(ids: Seq<TaskId>) -> Seq<Seq<char>> {
    ids.map_values(|t: TaskId| quoted(display_parts(t@)))
}

/// The debugging text of a list of task identifiers: `["a", "b"]`, as `Debug` shows a vector.
pub fn task_list_debug(ids: &Vec<TaskId>) -> (r: String)
    ensures
        r@ == seq!['['] + comma_list(task_debug_texts(ids@)) + seq![']'],
{
    let ghost items = task_debug_texts(ids@);
    let mut body = String::new();
    let mut i: usize = 0;
    assert(items.take(0) =~= Seq::<Seq<char>>::empty());
    while i < ids.len()
        invariant
            items == task_debug_texts(ids@),
            i <= ids.len(),
            body@ == comma_list(items.take(i as int)),
        decreases ids.len() - i,
    {
        let item = ids[i].debug_text();
        assert(items.take(i + 1).drop_last() =~= items.take(i as int));
        assert(items.take(i + 1).last() == item@);
        if i > 0 {
            push_char(&mut body, ',');
            push_char(&mut body, ' ');
            assert(body@ =~= comma_list(items.take(i as int)) + seq![',', ' ']);
        } else {
            assert(items.take(1) =~= seq![item@]);
        }
        body.append(item.as_str());
        i = i + 1;
    }
    assert(items.take(ids.len() as int) =~= items);
    let mut out = String::new();
    push_char(&mut out, '[');
    out.append(body.as_str());
    push_char(&mut out, ']');
    out
}

impl Clone for TaskId {
    fn clone(&self) -> (r: Self)
        ensures
            r@ == self@,
    {
        TaskId(self.0.clone())
    }
}

impl Default for TaskId {
    fn default() -> (r: Self)
        ensures
            r@ == seq![Seq::<char>::empty()],
    {
        TaskId(Id::default())
    }
}

impl PartialEq for TaskId {
    fn eq(&self, other: &Self) -> (r: bool) {
        self.0.same_as(&other.0)
    }
}

impl vstd::std_specs::cmp::PartialEqSpecImpl for TaskId {
    open spec fn obeys_eq_spec() -> bool {
        true
    }

    open spec fn eq_spec(&self, other: &TaskId) -> bool {
        self@ == other@
    }
}

impl Eq for TaskId {
}

impl core::ops::Deref for TaskId {
    type Target = Id;

    fn deref(&self) -> (r: &Id)
        ensures
            *r == self.0,
    {
        &self.0
    }
}

/// Whether `s` is a separator followed by a valid identifier.
pub open spec fn parses_as_absolute(s: Seq<char>) -> bool {
    s.len() > 0 && s[0] == ID_SEPARATOR && all_valid(split_on(s.drop_first(), ID_SEPARATOR))
}

/// The text of the error reported when `s` does not parse as an absolute identifier.
pub open spec fn absolute_error(s: Seq<char>) -> Seq<char> {
    if s.len() > 0 && s[0] == ID_SEPARATOR {
        split_on(s.drop_first(), ID_SEPARATOR)[first_invalid(split_on(s.drop_first(), ID_SEPARATOR))]
    } else {
        s
    }
}

/// Parses `:a:b:c` into the identifier `a:b:c`.
fn parse_absolute(s: &str) -> (r: Result<Id, InvalidId>)
    ensures
        r is Ok <==> parses_as_absolute(s@),
        r matches Ok(id) ==> id@ == split_on(s@.drop_first(), ID_SEPARATOR),
        r matches Err(e) ==> e.0@ == absolute_error(s@),
{
    let n = s.unicode_len();
    if n == 0 || s.get_char(0) != ID_SEPARATOR {
        return Err(InvalidId::new(s));
    }
    let rest = s.substring_char(1, n);
    assert(rest@ =~= s@.drop_first());
    Id::new(rest)
}

proof fn lemma_display_is_separated_join(parts: Seq<Seq<char>>)
    requires
        parts.len() >= 1,
    ensures
        display_parts(parts) == seq![ID_SEPARATOR] + join_parts(parts, ID_SEPARATOR),
    decreases parts.len(),
{
    if parts.len() == 1 {
        assert(parts.drop_last() =~= Seq::<Seq<char>>::empty());
        assert(display_parts(parts.drop_last()) == Seq::<char>::empty());
        assert(parts.last() == parts[0]);
        assert(display_parts(parts) == Seq::<char>::empty() + seq![ID_SEPARATOR] + parts[0]);
        assert(display_parts(parts) =~= seq![ID_SEPARATOR] + parts[0]);
    } else {
        lemma_display_is_separated_join(parts.drop_last());
        assert(display_parts(parts) =~= seq![ID_SEPARATOR] + join_parts(parts, ID_SEPARATOR));
    }
}

proof fn lemma_split_join(parts: Seq<Seq<char>>)
    requires
        parts.len() >= 1,
        forall|i: int| 0 <= i < parts.len() ==> !has_char(#[trigger] parts[i], ID_SEPARATOR),
    ensures
        split_on(join_parts(parts, ID_SEPARATOR), ID_SEPARATOR) == parts,
    decreases parts.len(),
{
    if parts.len() == 1 {
        crate::text::lemma_split_on_without_sep(parts[0], ID_SEPARATOR);
        assert(split_on(parts[0], ID_SEPARATOR) =~= parts);
    } else {
        let front = parts.drop_last();
        let j = join_parts(front, ID_SEPARATOR);
        assert forall|i: int| 0 <= i < front.len() implies !has_char(#[trigger] front[i], ID_SEPARATOR) by {
            assert(front[i] == parts[i]);
        }
        lemma_split_join(front);
        assert(!has_char(parts.last(), ID_SEPARATOR)) by {
            assert(parts[parts.len() - 1] == parts.last());
        }
        crate::text::lemma_split_on_append(j.push(ID_SEPARATOR), parts.last(), ID_SEPARATOR);
        assert(j.push(ID_SEPARATOR).drop_last() =~= j);
        assert(join_parts(parts, ID_SEPARATOR) =~= j.push(ID_SEPARATOR) + parts.last());
        lemma_split_on_nonempty(j, ID_SEPARATOR);
        let r = split_on(j.push(ID_SEPARATOR), ID_SEPARATOR);
        assert(r =~= front.push(Seq::<char>::empty()));
        assert(r.update(r.len() - 1, r.last() + parts.last()) =~= parts) by {
            assert(Seq::<char>::empty() + parts.last() =~= parts.last());
        }
    }
}

/// The text of an identifier parses back to it: for parts that are valid and hold no
/// separator, `:a:b:c` parses as an absolute identifier whose parts are `a`, `b`, `c`.
pub proof fn text_parses_back(parts: Seq<Seq<char>>)
    requires
        parts.len() >= 1,
        all_valid(parts),
        forall|i: int| 0 <= i < parts.len() ==> !has_char(#[trigger] parts[i], ID_SEPARATOR),
    ensures
        parses_as_absolute(display_parts(parts)),
        split_on(display_parts(parts).drop_first(), ID_SEPARATOR) == parts,
{
    lemma_display_is_separated_join(parts);
    assert(display_parts(parts).drop_first() =~= join_parts(parts, ID_SEPARATOR));
    lemma_split_join(parts);
}

/// How projects are referenced. Unlike tasks, projects don't have to have parents.
#[derive(Debug)]
pub struct ProjectId(pub Id);

impl View for ProjectId {
    type V = Seq<Seq<char>>;

    open spec fn view(&self) -> Seq<Seq<char>> {
        self.0@
    }
}

impl ProjectId {
    /// The identifier `root`.
    pub fn root() -> (r: Self)
        ensures
            r@ == seq!["root"@],
    {
        ProjectId(Id { parent: None, this: "root".to_owned() })
    }

    /// The identifier whose parts are the components of a relative or absolute path.
    pub fn from_path(path: &str) -> (r: Result<Self, InvalidId>)
        ensures
            ({
                let comps = path_components(split_on(path@, '/'));
                &&& r is Ok <==> (comps.len() > 0 && all_valid(comps))
                &&& r matches Ok(id) ==> id@ == comps
                &&& r matches Err(e) ==> (if comps.len() == 0 {
                    e.0@ == Seq::<char>::empty()
                } else {
                    e.0@ == comps[first_invalid(comps)]
                })
            }),
    {
        let comps = path_parts(path);
        match Id::from_parts(&comps) {
            Ok(id) => Ok(ProjectId(id)),
            Err(e) => Err(e),
        }
    }

    pub fn new(id: &str) -> (r: Result<Self, InvalidId>)
        ensures
            r is Ok <==> all_valid(split_on(id@, ID_SEPARATOR)),
            r matches Ok(p) ==> p@ == split_on(id@, ID_SEPARATOR),
            r matches Err(e) ==> e.0@ == split_on(id@, ID_SEPARATOR)[first_invalid(
                split_on(id@, ID_SEPARATOR),
            )],
    {
        match Id::new(id) {
            Ok(name) => Ok(ProjectId(name)),
            Err(e) => Err(e),
        }
    }

    /// The identifier of the project.
    pub fn id(&self) -> (r: &Id)
        ensures
            r@ == self@,
    {
        &self.0
    }

    /// Parses a project id written as `:part:part`.
    pub fn from_str(s: &str) -> (r: Result<Self, InvalidId>)
        ensures
            r is Ok <==> parses_as_absolute(s@),
            r matches Ok(id) ==> id@ == split_on(s@.drop_first(), ID_SEPARATOR),
            r matches Err(e) ==> e.0@ == absolute_error(s@),
    {
        match parse_absolute(s) {
            Ok(id) => Ok(ProjectId(id)),
            Err(e) => Err(e),
        }
    }

    /// The text form, `:root:child`.
    pub fn to_string(&self) -> (r: String)
        ensures
            r@ == display_parts(self@),
    {
        self.0.to_string()
    }
}

impl Clone for ProjectId {
    fn clone(&self) -> (r: Self)
        ensures
            r@ == self@,
    {
        ProjectId(self.0.clone())
    }
}

impl Default for ProjectId {
    fn default() -> (r: Self)
        ensures
            r@ == seq![Seq::<char>::empty()],
    {
        ProjectId(Id::default())
    }
}

impl PartialEq for ProjectId {
    fn eq(&self, other: &Self) -> (r: bool) {
        self.0.same_as(&other.0)
    }
}

impl vstd::std_specs::cmp::PartialEqSpecImpl for ProjectId {
    open spec fn obeys_eq_spec() -> bool {
        true
    }

    open spec fn eq_spec(&self, other: &ProjectId) -> bool {
        self@ == other@
    }
}

impl Eq for ProjectId {
}

impl core::ops::Deref for ProjectId {
    type Target = Id;

    fn deref(&self) -> (r: &Id)
        ensures
            *r == self.0,
    {
        &self.0
    }
}

/// Create new tasks Ids
#[derive(Debug)]
pub struct TaskIdFactory {
    project: ProjectId,
}

impl TaskIdFactory {
    pub fn new(project: ProjectId) -> (r: Self)
        ensures
            r.project()@ == project@,
    {
        Self { project }
    }

    /// The project the created ids belong to.
    pub closed spec fn project(self) -> ProjectId {
        self.project
    }

    /// The id of the task `task_name` in the project.
    pub fn create(&self, task_name: &str) -> (r: Result<TaskId, InvalidId>)
        ensures
            r is Ok <==> all_valid(split_on(task_name@, ID_SEPARATOR)),
            r matches Ok(id) ==> id@ == self.project()@ + split_on(task_name@, ID_SEPARATOR),
            r matches Err(e) ==> e.0@ == split_on(task_name@, ID_SEPARATOR)[first_invalid(
                split_on(task_name@, ID_SEPARATOR),
            )],
    {
        match self.project.0.join(task_name) {
            Ok(id) => Ok(TaskId(id)),
            Err(e) => Err(e),
        }
    }
}

impl Clone for TaskIdFactory {
    fn clone(&self) -> (r: Self)
        ensures
            r.project()@ == self.project()@,
    {
        TaskIdFactory { project: self.project.clone() }
    }
}

} // verus!
