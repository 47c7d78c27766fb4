//! Dot-separated domain names: parsing, rendering and the subdomain relation.

use crate::text::{append_joined, collect_chars, joined, texts};
use vstd::prelude::*;
use vstd::std_specs::cmp::PartialEqSpecImpl;

verus! {

/// The input without the dots at its end.
pub open spec fn trim_trailing_dots(s: Seq<char>) -> Seq<char>
    decreases s.len(),
{
    if s.len() > 0 && s.last() == '.' {
        trim_trailing_dots(s.drop_last())
    } else {
        s
    }
}

/// The labels of `s`: the pieces between its dots, in order. A text without a
/// dot is one label, and an empty piece is a label too.
pub open spec fn split_labels(s: Seq<char>) -> Seq<Seq<char>>
    decreases s.len(),
{
    if s.len() == 0 {
        seq![Seq::<char>::empty()]
    } else {
        let init = split_labels(s.drop_last());
        if s.last() == '.' {
            init.push(Seq::<char>::empty())
        } else {
            init.drop_last().push(init.last().push(s.last()))
        }
    }
}

/// The labels written one after the other with a dot between neighbours.
pub open spec fn join_labels(labels: Seq<Seq<char>>) -> Seq<char> {
    joined(labels, seq!['.'])
}

/// Joining two labels or more is joining all but the last, then a dot, then
/// the last.
proof fn lemma_join_step(labels: Seq<Seq<char>>)
    requires
        labels.len() >= 2,
    ensures
        join_labels(labels) == join_labels(labels.drop_last()).push('.') + labels.last(),
{
    let init = join_labels(labels.drop_last());
    assert(init + seq!['.'] == init.push('.'));
}

/// Every text has at least one label.
pub proof fn split_has_a_label(s: Seq<char>)
    ensures
        split_labels(s).len() >= 1,
    decreases s.len(),
{
    if s.len() > 0 {
        split_has_a_label(s.drop_last());
    }
}

/// Joining the labels of a text gives the text back.
pub proof fn join_undoes_split(s: Seq<char>)
    ensures
        join_labels(split_labels(s)) == s,
    decreases s.len(),
{
    if s.len() == 0 {
    } else {
        let init = split_labels(s.drop_last());
        split_has_a_label(s.drop_last());
        join_undoes_split(s.drop_last());
        if s.last() == '.' {
            let all = init.push(Seq::<char>::empty());
            assert(all.drop_last() == init);
            lemma_join_step(all);
            assert(join_labels(all) == join_labels(init).push('.') + Seq::<char>::empty());
            assert(join_labels(all) == s.drop_last().push('.'));
            assert(s.drop_last().push('.') == s);
        } else {
            let grown = init.last().push(s.last());
            let all = init.drop_last().push(grown);
            assert(all.drop_last() == init.drop_last());
            if init.len() == 1 {
                assert(join_labels(init) == init[0]);
                assert(join_labels(all) == grown);
                assert(grown == s.drop_last().push(s.last()));
            } else {
                lemma_join_step(all);
                lemma_join_step(init);
                assert(join_labels(all) == join_labels(init.drop_last()).push('.') + grown);
                assert(join_labels(init) == join_labels(init.drop_last()).push('.') + init.last());
                assert(join_labels(all) == join_labels(init).push(s.last()));
            }
            assert(s.drop_last().push(s.last()) == s);
        }
    }
}

/// A domain name by its parts, each a text.
pub struct DomainNameView {
    /// The labels before the registrable name, outermost first.
    pub subdomains: Seq<Seq<char>>,
    /// The registrable name: the label before the last.
    pub domain: Seq<char>,
    /// The top-level domain: the last label.
    pub tld: Seq<char>,
}

impl DomainNameView {
    /// All labels, in the order in which they are written.
    pub open spec fn labels(self) -> Seq<Seq<char>> {
        self.subdomains.push(self.domain).push(self.tld)
    }

    /// The name as it is written: its labels joined by dots.
    pub open spec fn text(self) -> Seq<char> {
        join_labels(self.labels())
    }

    /// Whether `self` lies strictly below `other`: both have the same
    /// registrable name and top-level domain, and the subdomain chain of
    /// `self` is that of `other` with at least one more label in front.
    pub open spec fn is_subdomain_of(self, other: DomainNameView) -> bool {
        &&& self.domain == other.domain
        &&& self.tld == other.tld
        &&& self.subdomains.len() > other.subdomains.len()
        &&& self.subdomains.skip(self.subdomains.len() - other.subdomains.len())
            == other.subdomains
    }

    /// No label holds a dot, and the top-level domain is not empty.
    pub open spec fn wf(self) -> bool {
        &&& forall|i: int| 0 <= i < self.labels().len() ==> !(#[trigger] self.labels()[i]).contains('.')
        &&& self.tld.len() > 0
    }
}

/// What parsing makes of a text: nothing where the text, its trailing dots
/// taken off, has fewer than two labels; else the last label as top-level
/// domain, the one before it as registrable name, the rest as subdomains.
pub open spec fn parse_spec(s: Seq<char>) -> Option<DomainNameView> {
    let labels = split_labels(trim_trailing_dots(s));
    if labels.len() < 2 {
        None
    } else {
        Some(
            DomainNameView {
                subdomains: labels.take(labels.len() - 2),
                domain: labels[labels.len() - 2],
                tld: labels.last(),
            },
        )
    }
}

/// A text has the length `cut` once its trailing dots are off, where all
/// from `cut` on are dots and the character before `cut` is none.
proof fn lemma_trim_at(s: Seq<char>, cut: int)
    requires
        0 <= cut <= s.len(),
        cut > 0 ==> s[cut - 1] != '.',
        forall|j: int| cut <= j < s.len() ==> s[j] == '.',
    ensures
        trim_trailing_dots(s) == s.take(cut),
    decreases s.len(),
{
    if cut == s.len() {
        assert(s.take(cut) == s);
    } else {
        lemma_trim_at(s.drop_last(), cut);
        assert(s.drop_last().take(cut) == s.take(cut));
    }
}

/// What is left of a text after its trailing dots are off does not end in
/// a dot.
proof fn lemma_trim_ends_without_dot(s: Seq<char>)
    ensures
        trim_trailing_dots(s).len() > 0 ==> trim_trailing_dots(s).last() != '.',
    decreases s.len(),
{
    if s.len() > 0 && s.last() == '.' {
        lemma_trim_ends_without_dot(s.drop_last());
    }
}

/// No label of a text holds a dot.
pub proof fn labels_hold_no_dot(s: Seq<char>)
    ensures
        forall|i: int|
            0 <= i < split_labels(s).len() ==> !(#[trigger] split_labels(s)[i]).contains('.'),
    decreases s.len(),
{
    if s.len() > 0 {
        labels_hold_no_dot(s.drop_last());
        split_has_a_label(s.drop_last());
        let init = split_labels(s.drop_last());
        if s.last() != '.' {
            let grown = init.last().push(s.last());
            assert forall|j: int| 0 <= j < grown.len() implies grown[j] != '.' by {
                if j < init.last().len() {
                    assert(init.last()[j] == grown[j]);
                    assert(init.last().contains(grown[j]));
                }
            }
        }
    }
}

/// The error of [`DomainName::parse`]: the text has fewer than two labels.
#[derive(Debug)]
pub struct DomainNameParseError;

impl DomainNameParseError {
    /// The message of this error.
    pub fn to_string(&self) -> (text: String)
        ensures
            text@ == "Failed to parse domain name!"@,
    {
        "Failed to parse domain name!".to_owned()
    }
}

/// A parsed domain name: top-level domain, registrable name, and the chain
/// of subdomain labels before them, outermost first.
#[derive(Debug, Hash)]
pub struct DomainName {
    tld: String,
    domain: String,
    subdomains: Option<Vec<String>>,
}

impl View for DomainName {
    type V = DomainNameView;

    closed spec fn view(&self) -> DomainNameView {
        DomainNameView {
            subdomains: match self.subdomains {
                Some(v) => texts(v@),
                None => Seq::empty(),
            },
            domain: self.domain@,
            tld: self.tld@,
        }
    }
}

impl DomainName {
    /// What holds of every domain name: its labels hold no dot, its top-level
    /// domain is not empty, and a subdomain chain that is present has a label.
    #[verifier::type_invariant]
    pub closed spec fn inv(&self) -> bool {
        &&& self@.wf()
        &&& self.subdomains matches Some(v) ==> v@.len() > 0
    }

    /// Parses a dot-separated name. Dots at the end are dropped first; the
    /// text must then have at least two labels.
    pub fn parse(domain_name: &str) -> (parsed: Result<DomainName, DomainNameParseError>)
        ensures
            (match parsed {
                Ok(name) => parse_spec(domain_name@) == Some(name@) && name@.wf(),
                Err(_) => parse_spec(domain_name@) is None,
            }),
    {
        let chars = collect_chars(domain_name);
        let mut cut: usize = chars.len();
        while cut > 0 && chars[cut - 1] == '.'
            invariant
                cut <= chars.len(),
                forall|j: int| cut <= j < chars.len() ==> chars[j] == '.',
            decreases cut,
        {
            cut -= 1;
        }
        let ghost trimmed = domain_name@.take(cut as int);
        proof {
            lemma_trim_at(domain_name@, cut as int);
        }
        let mut labels: Vec<String> = Vec::new();
        let mut start: usize = 0;
        let mut i: usize = 0;
        proof {
            assert(trimmed.take(0).len() == 0);
            assert(trimmed.subrange(0, 0) == Seq::<char>::empty());
            assert(texts(labels@).len() == 0);
            assert(texts(labels@).push(Seq::<char>::empty()) == seq![Seq::<char>::empty()]);
        }
        while i < cut
            invariant
                chars@ == domain_name@,
                trimmed == domain_name@.take(cut as int),
                start <= i <= cut <= chars.len(),
                split_labels(trimmed.take(i as int)) == texts(labels@).push(
                    trimmed.subrange(start as int, i as int),
                ),
                start == 0 || trimmed[start - 1] == '.',
            decreases cut - i,
        {
            proof {
                assert(trimmed.take(i + 1).drop_last() == trimmed.take(i as int));
                assert(trimmed.subrange(start as int, i as int).push(trimmed[i as int])
                    == trimmed.subrange(start as int, i + 1));
            }
            if chars[i] == '.' {
                let label = domain_name.substring_char(start, i).to_owned();
                proof {
                    assert(label@ == trimmed.subrange(start as int, i as int));
                    assert(texts(labels@.push(label)) == texts(labels@).push(label@));
                    assert(trimmed.subrange(i + 1, i + 1) == Seq::<char>::empty());
                }
                labels.push(label);
                start = i + 1;
            }
            i += 1;
        }
        let last = domain_name.substring_char(start, cut).to_owned();
        proof {
            assert(trimmed.take(cut as int) == trimmed);
            assert(last@ == trimmed.subrange(start as int, cut as int));
            assert(texts(labels@.push(last)) == texts(labels@).push(last@));
        }
        labels.push(last);
        assert(texts(labels@) == split_labels(trimmed));
        if labels.len() < 2 {
            return Err(DomainNameParseError);
        }
        let ghost all = texts(labels@);
        let tld = labels.pop().unwrap();
        let domain = labels.pop().unwrap();
        proof {
            labels_hold_no_dot(trimmed);
            assert(tld@ == all.last());
            assert(domain@ == all[all.len() - 2]);
            assert(texts(labels@) == all.take(all.len() - 2));
            assert(tld@.len() > 0) by {
                if start == cut {
                    assert(trimmed[start - 1] == '.');
                    assert(chars[cut - 1] == '.');
                }
            }
        }
        let subdomains = if labels.len() == 0 {
            None
        } else {
            Some(labels)
        };
        let name = DomainName { tld, domain, subdomains };
        proof {
            assert(name@.subdomains == all.take(all.len() - 2));
            assert(name@.labels() == all);
        }
        Ok(name)
    }

    /// The name as text: its labels joined by dots, subdomains first.
    pub fn to_string(&self) -> (text: String)
        ensures
            text@ == self@.text(),
    {
        let mut text = String::new();
        let ghost named = self@.subdomains.push(self@.domain);
        proof {
            reveal_strlit(".");
            assert("."@ == seq!['.']);
            assert(named.push(self@.tld).drop_last() == named);
            assert(named.drop_last() == self@.subdomains);
            lemma_join_step(self@.labels());
        }
        if let Some(chain) = &self.subdomains {
            proof {
                use_type_invariant(self);
                assert(texts(chain@).subrange(0, chain.len() as int) == self@.subdomains);
                assert(text@ + join_labels(self@.subdomains) == join_labels(self@.subdomains));
                lemma_join_step(named);
            }
            append_joined(&mut text, chain, 0, chain.len(), ".");
            text.append(".");
        }
        text.append(self.domain.as_str());
        assert(text@ == join_labels(named)) by {
            assert(join_labels(self@.subdomains) + seq!['.'] == join_labels(self@.subdomains).push(
                '.',
            ));
            assert(Seq::<char>::empty() + self@.domain == self@.domain);
        }
        text.append(".");
        text.append(self.tld.as_str());
        assert(text@ == join_labels(named).push('.') + self@.tld) by {
            assert(join_labels(named) + seq!['.'] == join_labels(named).push('.'));
        }
        text
    }

    /// Returns whether the domain name is a subdomain of another domain name.
    pub fn is_subdomain_of(&self, other: &DomainName) -> (below: bool)
        ensures
            below == self@.is_subdomain_of(other@),
    {
        proof {
            use_type_invariant(self);
            use_type_invariant(other);
        }
        if !self.shares_registrable_name(other) {
            return false;
        }
        match (&self.subdomains, &other.subdomains) {
            (Some(mine), Some(theirs)) => {
                if mine.len() <= theirs.len() {
                    return false;
                }
                let ghost tail = texts(mine@).skip(mine.len() - theirs.len());
                let mut i: usize = 0;
                while i < theirs.len()
                    invariant
                        i <= theirs.len() < mine.len(),
                        self@.subdomains == texts(mine@),
                        other@.subdomains == texts(theirs@),
                        tail == texts(mine@).skip(mine.len() - theirs.len()),
                        forall|k: int|
                            theirs.len() - i <= k < theirs.len() ==> tail[k] == texts(theirs@)[k],
                    decreases theirs.len() - i,
                {
                    i += 1;
                    if !(mine[mine.len() - i] == theirs[theirs.len() - i]) {
                        proof {
                            let k = theirs.len() - i;
                            assert(tail[k] == mine[mine.len() - i]@);
                            assert(texts(theirs@)[k] == theirs[k]@);
                        }
                        return false;
                    }
                }
                assert(tail == texts(theirs@));
                true
            },
            (Some(mine), None) => {
                assert(texts(mine@).skip(mine.len() as int).len() == 0);
                assert(texts(mine@).skip(mine.len() as int) == Seq::<Seq<char>>::empty());
                true
            },
            (None, _) => false,
        }
    }

    /// Whether both names have the same registrable name and top-level domain.
    pub fn shares_registrable_name(&self, other: &DomainName) -> (shared: bool)
        ensures
            shared == (self@.domain == other@.domain && self@.tld == other@.tld),
    {
        self.domain == other.domain && self.tld == other.tld
    }

    /// Returns whether the domain name is superdomain of another domain name.
    pub fn is_superdomain_of(&self, other: &DomainName) -> (above: bool)
        ensures
            above == other@.is_subdomain_of(self@),
    {
        other.is_subdomain_of(self)
    }

    /// Returns the top-level domain of the domain name.
    pub fn tld(&self) -> (label: &str)
        ensures
            label@ == self@.tld,
    {
        self.tld.as_str()
    }

    /// Returns the domain of the domain name.
    pub fn domain(&self) -> (label: &str)
        ensures
            label@ == self@.domain,
    {
        self.domain.as_str()
    }

    /// Returns the subdomains of the domain, if such exist.
    pub fn subdomains(&self) -> (chain: &Option<Vec<String>>)
        ensures
            (match chain {
                Some(labels) => labels@.len() > 0 && texts(labels@) == self@.subdomains,
                None => self@.subdomains.len() == 0,
            }),
    {
        proof {
            use_type_invariant(self);
        }
        &self.subdomains
    }
}

/// Whether two chains hold the same labels in the same order.
fn same_labels(left: &Vec<String>, right: &Vec<String>) -> (same: bool)
    ensures
        same == (texts(left@) == texts(right@)),
{
    if left.len() != right.len() {
        assert(texts(left@).len() != texts(right@).len());
        return false;
    }
    let mut i: usize = 0;
    while i < left.len()
        invariant
            i <= left.len() == right.len(),
            forall|k: int| 0 <= k < i ==> left[k]@ == right[k]@,
        decreases left.len() - i,
    {
        if !(left[i] == right[i]) {
            proof {
                assert(texts(left@)[i as int] == left[i as int]@);
                assert(texts(right@)[i as int] == right[i as int]@);
            }
            return false;
        }
        i += 1;
    }
    assert(texts(left@) =~= texts(right@));
    true
}

/// A chain with the same labels.
fn copy_labels(labels: &Vec<String>) -> (copy: Vec<String>)
    ensures
        texts(copy@) == texts(labels@),
{
    let mut copy: Vec<String> = Vec::new();
    let mut i: usize = 0;
    while i < labels.len()
        invariant
            i <= labels.len(),
            copy.len() == i,
            forall|k: int| 0 <= k < i ==> copy[k]@ == labels[k]@,
        decreases labels.len() - i,
    {
        copy.push(labels[i].clone());
        i += 1;
    }
    assert(texts(copy@) =~= texts(labels@));
    copy
}

impl PartialEq for DomainName {
    /// Two names are equal where their parts are.
    fn eq(&self, other: &Self) -> (same: bool) {
        proof {
            use_type_invariant(self);
            use_type_invariant(other);
        }
        if !(self.tld == other.tld) || !(self.domain == other.domain) {
            return false;
        }
        match (&self.subdomains, &other.subdomains) {
            (Some(mine), Some(theirs)) => same_labels(mine, theirs),
            (None, None) => true,
            (Some(mine), None) => {
                assert(texts(mine@).len() > 0);
                false
            },
            (None, Some(theirs)) => {
                assert(texts(theirs@).len() > 0);
                false
            },
        }
    }
}

impl PartialEqSpecImpl for DomainName {
    open spec fn obeys_eq_spec() -> bool {
        true
    }

    open spec fn eq_spec(&self, other: &Self) -> bool {
        self@ == other@
    }
}

impl Eq for DomainName {

}

impl Clone for DomainName {
    fn clone(&self) -> (copy: Self)
        ensures
            copy@ == self@,
    {
        proof {
            use_type_invariant(self);
        }
        let subdomains = match &self.subdomains {
            Some(chain) => {
                let copied = copy_labels(chain);
                assert(texts(copied@).len() == texts(chain@).len());
                Some(copied)
            },
            None => None,
        };
        DomainName { tld: self.tld.clone(), domain: self.domain.clone(), subdomains }
    }
}

/// A text without a dot is its own single label.
proof fn lemma_split_one(label: Seq<char>)
    requires
        !label.contains('.'),
    ensures
        split_labels(label) == seq![label],
    decreases label.len(),
{
    if label.len() == 0 {
        assert(label == Seq::<char>::empty());
    } else {
        let init = label.drop_last();
        assert forall|j: int| 0 <= j < init.len() implies init[j] != '.' by {
            assert(label[j] == init[j]);
            assert(label.contains(init[j]));
        }
        lemma_split_one(init);
        assert(label.contains(label.last()));
        assert(init.push(label.last()) == label);
        assert(seq![init].drop_last().push(label) == seq![label]);
    }
}

/// A dot and a label without one, written after a text, add that label to
/// the labels of the text.
proof fn lemma_split_append(front: Seq<char>, label: Seq<char>)
    requires
        !label.contains('.'),
    ensures
        split_labels(front.push('.') + label) == split_labels(front).push(label),
    decreases label.len(),
{
    let whole = front.push('.') + label;
    if label.len() == 0 {
        assert(whole == front.push('.'));
        assert(whole.drop_last() == front);
        assert(label == Seq::<char>::empty());
    } else {
        let init = label.drop_last();
        assert forall|j: int| 0 <= j < init.len() implies init[j] != '.' by {
            assert(label[j] == init[j]);
            assert(label.contains(init[j]));
        }
        lemma_split_append(front, init);
        assert(label.contains(label.last()));
        assert(whole.drop_last() == front.push('.') + init);
        assert(whole.last() == label.last());
        assert(init.push(label.last()) == label);
        assert(split_labels(front).push(init).drop_last() == split_labels(front));
    }
}

/// The labels of a joined text are the labels that were joined, where there
/// is at least one and none holds a dot.
pub proof fn split_undoes_join(labels: Seq<Seq<char>>)
    requires
        labels.len() >= 1,
        forall|i: int| 0 <= i < labels.len() ==> !(#[trigger] labels[i]).contains('.'),
    ensures
        split_labels(join_labels(labels)) == labels,
    decreases labels.len(),
{
    if labels.len() == 1 {
        lemma_split_one(labels[0]);
        assert(seq![labels[0]] == labels);
    } else {
        let init = labels.drop_last();
        assert forall|i: int| 0 <= i < init.len() implies !(#[trigger] init[i]).contains('.') by {
            assert(init[i] == labels[i]);
        }
        split_undoes_join(init);
        lemma_join_step(labels);
        lemma_split_append(join_labels(init), labels.last());
        assert(init.push(labels.last()) == labels);
    }
}

/// Parsing, then writing the name out, gives the text without its trailing
/// dots: the parts of a parsed name re-join to the canonical input.
pub proof fn parse_then_text_is_canonical(input: Seq<char>)
    requires
        parse_spec(input) is Some,
    ensures
        parse_spec(input).unwrap().text() == trim_trailing_dots(input),
{
    let labels = split_labels(trim_trailing_dots(input));
    let name = parse_spec(input).unwrap();
    assert(name.labels() == labels);
    join_undoes_split(trim_trailing_dots(input));
}

/// A text of fewer than two labels, such as a single label, does not parse.
pub proof fn single_label_does_not_parse(input: Seq<char>)
    requires
        !trim_trailing_dots(input).contains('.'),
    ensures
        parse_spec(input) is None,
{
    lemma_split_one(trim_trailing_dots(input));
}

/// Every parsed name is well formed.
pub proof fn parsed_name_is_well_formed(input: Seq<char>)
    requires
        parse_spec(input) is Some,
    ensures
        parse_spec(input).unwrap().wf(),
{
    let trimmed = trim_trailing_dots(input);
    let labels = split_labels(trimmed);
    let name = parse_spec(input).unwrap();
    assert(name.labels() == labels);
    labels_hold_no_dot(trimmed);
    lemma_trim_ends_without_dot(input);
    join_undoes_split(trimmed);
    if name.tld.len() == 0 {
        assert(labels.drop_last().len() >= 1);
        lemma_join_step(labels);
        assert(join_labels(labels) == join_labels(labels.drop_last()).push('.') + name.tld);
        assert(trimmed.last() == '.');
    }
}

/// Writing a well-formed name out, then parsing the text, gives the name back.
pub proof fn text_then_parse_is_identity(name: DomainNameView)
    requires
        name.wf(),
    ensures
        parse_spec(name.text()) == Some(name),
{
    let labels = name.labels();
    let text = name.text();
    split_undoes_join(labels);
    lemma_join_step(labels);
    assert(text == join_labels(labels.drop_last()).push('.') + name.tld);
    assert(text.last() == name.tld.last());
    assert(name.tld.contains(name.tld.last()));
    assert(labels[labels.len() - 1] == name.tld);
    assert(trim_trailing_dots(text) == text);
    assert(labels.take(labels.len() - 2) == name.subdomains);
}

/// No name is a subdomain of itself.
pub proof fn subdomain_is_irreflexive(name: DomainNameView)
    ensures
        !name.is_subdomain_of(name),
{
}

/// Of two names at most one is a subdomain of the other.
pub proof fn subdomain_is_asymmetric(lower: DomainNameView, upper: DomainNameView)
    requires
        lower.is_subdomain_of(upper),
    ensures
        !upper.is_subdomain_of(lower),
{
}

/// A subdomain of a subdomain of a name is a subdomain of that name.
pub proof fn subdomain_is_transitive(
    lower: DomainNameView,
    middle: DomainNameView,
    upper: DomainNameView,
)
    requires
        lower.is_subdomain_of(middle),
        middle.is_subdomain_of(upper),
    ensures
        lower.is_subdomain_of(upper),
{
    let a = lower.subdomains;
    let b = middle.subdomains;
    let c = upper.subdomains;
    let a_tail = a.skip(a.len() - c.len());
    let b_tail = b.skip(b.len() - c.len());
    assert(a_tail == b_tail) by {
        assert forall|i: int| 0 <= i < c.len() implies #[trigger] a_tail[i] == b_tail[i] by {
            assert(a.skip(a.len() - b.len())[i + b.len() - c.len()] == b[i + b.len() - c.len()]);
        }
    }
}

/// A name with subdomains is a subdomain of the bare name that has its
/// registrable name and top-level domain; a name without is a subdomain of
/// nothing.
pub proof fn subdomain_of_bare_name(name: DomainNameView, other: DomainNameView)
    ensures
        name.subdomains.len() == 0 ==> !name.is_subdomain_of(other),
        name.subdomains.len() > 0 && other.subdomains.len() == 0 && name.domain == other.domain
            && name.tld == other.tld ==> name.is_subdomain_of(other),
{
    if other.subdomains.len() == 0 {
        assert(name.subdomains.skip(name.subdomains.len() as int) == other.subdomains);
    }
}

} // verus!
