//! Names that resolve two ways: to this machine for local callers, and to
//! an onion address for everyone else.

use vstd::prelude::*;
use crate::net::{ipv4_text, push_ipv4};
use crate::text::{
    chars_of, contains, contains_text, find_char, lemma_next_char, maybe_string, next_char,
    push_range, push_text, string_of,
};

verus! {

/// Which of the two answers is asked for.
#[derive(Debug, Clone, Copy, PartialEq, Eq, Structural)]
pub enum ResolutionContext {
    /// The address on this machine.
    Local,
    /// The onion address.
    Tor,
}

/// What a name resolves to.
pub struct BindingModel {
    pub domain: Seq<char>,
    /// The octets of the local address.
    pub local: [u8; 4],
    pub onion: Seq<char>,
}

/// The least index at or after `from` whose binding is for `domain`, or
/// `bindings.len()` where there is none.
pub open spec fn find_domain(bindings: Seq<BindingModel>, domain: Seq<char>, from: int) -> int
    decreases bindings.len() - from,
{
    if from < 0 || from >= bindings.len() {
        bindings.len() as int
    } else if bindings[from].domain == domain {
        from
    } else {
        find_domain(bindings, domain, from + 1)
    }
}

/// The binding for `domain`, if there is one.
pub open spec fn binding_of(bindings: Seq<BindingModel>, domain: Seq<char>) -> Option<
    BindingModel,
> {
    let i = find_domain(bindings, domain, 0);
    if i < bindings.len() {
        Some(bindings[i])
    } else {
        None
    }
}

/// `bindings` with `binding` in the place of the one for the same name, or
/// at the end where there was none.
pub open spec fn with_binding(bindings: Seq<BindingModel>, binding: BindingModel) -> Seq<
    BindingModel,
> {
    let i = find_domain(bindings, binding.domain, 0);
    if i < bindings.len() {
        bindings.update(i, binding)
    } else {
        bindings.push(binding)
    }
}

/// `find_domain` gives the first binding for the name at or after `from`.
pub proof fn lemma_find_domain(bindings: Seq<BindingModel>, domain: Seq<char>, from: int)
    requires
        0 <= from <= bindings.len(),
    ensures
        from <= find_domain(bindings, domain, from) <= bindings.len(),
        find_domain(bindings, domain, from) < bindings.len() ==> bindings[find_domain(
            bindings,
            domain,
            from,
        )].domain == domain,
        forall|j: int|
            from <= j < find_domain(bindings, domain, from) ==> (#[trigger] bindings[j]).domain
                != domain,
    decreases bindings.len() - from,
{
    if from < bindings.len() && bindings[from].domain != domain {
        lemma_find_domain(bindings, domain, from + 1);
    }
}

/// No two bindings are for the same name.
pub open spec fn distinct_domains(bindings: Seq<BindingModel>) -> bool {
    forall|i: int, j: int|
        0 <= i < bindings.len() && 0 <= j < bindings.len() && i != j ==> (
        #[trigger] bindings[i]).domain != (#[trigger] bindings[j]).domain
}

/// Binding a name leaves no name twice.
pub proof fn lemma_binding_keeps_domains_distinct(
    bindings: Seq<BindingModel>,
    binding: BindingModel,
)
    requires
        distinct_domains(bindings),
    ensures
        distinct_domains(with_binding(bindings, binding)),
{
    lemma_find_domain(bindings, binding.domain, 0);
    let bound = with_binding(bindings, binding);
    let i = find_domain(bindings, binding.domain, 0);
    assert forall|a: int, b: int|
        0 <= a < bound.len() && 0 <= b < bound.len() && a != b implies (
    #[trigger] bound[a]).domain != (#[trigger] bound[b]).domain by {
        if a < bindings.len() && a != i {
            assert(bound[a] == bindings[a]);
        }
        if b < bindings.len() && b != i {
            assert(bound[b] == bindings[b]);
        }
    }
}

/// A name that was bound resolves to what it was bound to, and every other
/// name resolves as before.
pub proof fn lemma_with_binding(bindings: Seq<BindingModel>, binding: BindingModel)
    ensures
        binding_of(with_binding(bindings, binding), binding.domain) == Some(binding),
        forall|other: Seq<char>|
            other != binding.domain ==> #[trigger] binding_of(
                with_binding(bindings, binding),
                other,
            ) == binding_of(bindings, other),
{
    let after = with_binding(bindings, binding);
    let i = find_domain(bindings, binding.domain, 0);
    lemma_find_domain(bindings, binding.domain, 0);
    lemma_find_domain(after, binding.domain, 0);
    let k = find_domain(after, binding.domain, 0);
    if k < i {
        assert(after[k].domain == bindings[k].domain);
    }
    assert(after[i] == binding);
    assert forall|other: Seq<char>| other != binding.domain implies #[trigger] binding_of(
        after,
        other,
    ) == binding_of(bindings, other) by {
        lemma_find_domain(bindings, other, 0);
        lemma_find_domain(after, other, 0);
        let a = find_domain(bindings, other, 0);
        let b = find_domain(after, other, 0);
        if a < bindings.len() {
            assert(after[a] == bindings[a]);
        }
        if b < after.len() && b != i {
            assert(after[b] == bindings[b]);
        }
        if a < b && a < bindings.len() {
            assert(after[a].domain == other);
        }
        if b < a && b < after.len() {
            assert(bindings[b].domain == other);
        }
    }
}

pub(crate) struct Binding {
    pub domain: String,
    pub local: [u8; 4],
    pub onion: String,
}

impl View for Binding {
    type V = BindingModel;

    closed spec fn view(&self) -> BindingModel {
        BindingModel { domain: self.domain@, local: self.local, onion: self.onion@ }
    }
}

/// The names this machine answers for, each with its two addresses. No
/// name is bound twice.
pub struct DualDNSResolver {
    bindings: Vec<Binding>,
}

impl View for DualDNSResolver {
    type V = Seq<BindingModel>;

    closed spec fn view(&self) -> Seq<BindingModel> {
        self.bindings@.map_values(|b: Binding| b@)
    }
}

/// The onion address of a binding that may be absent.
pub open spec fn onion_of(binding: Option<BindingModel>) -> Option<Seq<char>> {
    match binding {
        Some(b) => Some(b.onion),
        None => None,
    }
}

/// The local address of a binding that may be absent.
pub open spec fn local_of(binding: Option<BindingModel>) -> Option<[u8; 4]> {
    match binding {
        Some(b) => Some(b.local),
        None => None,
    }
}

/// The characters of a string that may be absent.
pub open spec fn maybe_ref(text: Option<&String>) -> Option<Seq<char>> {
    match text {
        Some(t) => Some(t@),
        None => None,
    }
}

impl Clone for DualDNSResolver {
    /// A resolver with the same bindings.
    fn clone(&self) -> (r: Self)
        ensures
            r@ == self@,
    {
        proof {
            use_type_invariant(self);
        }
        let mut list: Vec<Binding> = Vec::new();
        let mut i: usize = 0;
        while i < self.bindings.len()
            invariant
                i <= self.bindings.len(),
                list@.map_values(|b: Binding| b@) == self@.take(i as int),
            decreases self.bindings.len() - i,
        {
            let b = &self.bindings[i];
            let copy = Binding { domain: b.domain.clone(), local: b.local, onion: b.onion.clone() };
            assert(copy@ == self@[i as int]);
            list.push(copy);
            assert(list@.map_values(|b: Binding| b@) =~= self@.take(i as int).push(
                self@[i as int],
            ));
            assert(self@.take(i as int).push(self@[i as int]) =~= self@.take(i + 1));
            i += 1;
        }
        assert(self@.take(i as int) =~= self@);
        DualDNSResolver { bindings: list }
    }
}

impl DualDNSResolver {
    #[verifier::type_invariant]
    spec fn names_differ(&self) -> bool {
        distinct_domains(self@)
    }

    /// A resolver that knows no name.
    pub fn new() -> (r: Self)
        ensures
            r@ == Seq::<BindingModel>::empty(),
    {
        let r = DualDNSResolver { bindings: Vec::new() };
        r
    }

    fn position(&self, domain: &str) -> (i: usize)
        ensures
            i == find_domain(self@, domain@, 0),
            i <= self.bindings.len(),
    {
        let wanted = domain.to_owned();
        let mut i: usize = 0;
        while i < self.bindings.len()
            invariant
                i <= self.bindings.len(),
                wanted@ == domain@,
                find_domain(self@, domain@, 0) == find_domain(self@, domain@, i as int),
            decreases self.bindings.len() - i,
        {
            if self.bindings[i].domain == wanted {
                return i;
            }
            i += 1;
        }
        i
    }

    /// Binds `domain` to this machine for local callers and to
    /// `onion_address` for everyone else.
    pub fn configure_dual_resolution(&mut self, domain: &str, onion_address: &str)
        ensures
            final(self)@ == with_binding(
                old(self)@,
                BindingModel {
                    domain: domain@,
                    local: [127u8, 0u8, 0u8, 1u8],
                    onion: onion_address@,
                },
            ),
            distinct_domains(final(self)@),
    {
        let ghost before = self@;
        let i = self.position(domain);
        let binding = Binding {
            domain: domain.to_owned(),
            local: [127, 0, 0, 1],
            onion: onion_address.to_owned(),
        };
        let ghost model = binding@;
        proof {
            use_type_invariant(&*self);
            lemma_binding_keeps_domains_distinct(before, model);
        }
        // The list is taken out while it is worked on, so that no name
        // stands twice in the resolver whatever happens in between.
        let mut list: Vec<Binding> = Vec::new();
        std::mem::swap(&mut self.bindings, &mut list);
        if i < list.len() {
            list[i] = binding;
        } else {
            list.push(binding);
        }
        assert(list@.map_values(|b: Binding| b@) =~= with_binding(before, model));
        std::mem::swap(&mut self.bindings, &mut list);
    }

    /// The local address of `domain`, if the name is bound.
    pub fn resolve_local(&self, domain: &str) -> (r: Option<[u8; 4]>)
        ensures
            r == local_of(binding_of(self@, domain@)),
    {
        let i = self.position(domain);
        if i < self.bindings.len() {
            Some(self.bindings[i].local)
        } else {
            None
        }
    }

    /// The onion address of `domain`, if the name is bound.
    pub fn resolve_tor(&self, domain: &str) -> (r: Option<&String>)
        ensures
            maybe_ref(r) == onion_of(binding_of(self@, domain@)),
    {
        let i = self.position(domain);
        if i < self.bindings.len() {
            assert(self@[i as int] == self.bindings@[i as int]@);
            Some(&self.bindings[i].onion)
        } else {
            None
        }
    }

    /// The answer for `domain` as text: the local address in dotted decimal,
    /// or the onion address.
    pub fn resolve_with_context(&self, domain: &str, context: ResolutionContext) -> (r: Option<
        String,
    >)
        ensures
            maybe_string(r) == match (context, binding_of(self@, domain@)) {
                (_, None) => None,
                (ResolutionContext::Local, Some(b)) => Some(ipv4_text(b.local)),
                (ResolutionContext::Tor, Some(b)) => Some(b.onion),
            },
    {
        match context {
            ResolutionContext::Local => {
                match self.resolve_local(domain) {
                    Some(ip) => {
                        let mut out: Vec<char> = Vec::new();
                        push_ipv4(&mut out, ip);
                        Some(string_of(out.as_slice()))
                    },
                    None => None,
                }
            },
            ResolutionContext::Tor => match self.resolve_tor(domain) {
                Some(onion) => Some(onion.clone()),
                None => None,
            },
        }
    }
}

/// The line of `s` that begins at `from`: what stands before the next line
/// feed or the end, without the carriage return before a line feed.
pub open spec fn line_at(s: Seq<char>, from: int) -> Seq<char> {
    let end = next_char(s, '\n', from);
    let raw = s.subrange(from, end);
    if end < s.len() && raw.len() > 0 && raw.last() == '\r' {
        raw.drop_last()
    } else {
        raw
    }
}

/// The lines of `s` from `from` on that do not mention `domain`, with a
/// line feed between each two. `first` tells that no line was kept yet.
pub open spec fn kept_lines(s: Seq<char>, domain: Seq<char>, from: int, first: bool) -> Seq<char>
    decreases s.len() - from,
{
    if from < 0 || from >= s.len() {
        Seq::empty()
    } else {
        let end = next_char(s, '\n', from);
        let line = line_at(s, from);
        let keep = !contains_text(line, domain);
        let tail = if end >= s.len() {
            Seq::empty()
        } else {
            proof {
                lemma_next_char(s, '\n', from);
            }
            kept_lines(s, domain, end + 1, first && !keep)
        };
        if !keep {
            tail
        } else if first {
            line + tail
        } else {
            "\n"@ + line + tail
        }
    }
}

/// The line that binds `domain` to `ip` in a hosts file.
pub open spec fn hosts_entry(domain: Seq<char>, ip: Seq<char>) -> Seq<char> {
    ip + " "@ + domain
}

/// The heading under which the bindings stand in a hosts file.
pub open spec fn hosts_heading() -> Seq<char> {
    "# Beam local domains"@
}

/// What a hosts file is to hold so that `domain` is bound to `ip`, or
/// nothing where it holds the binding already.
///
/// Every line that mentions the domain goes. The heading is added where it
/// is missing, and the binding comes last.
pub open spec fn hosts_with(content: Seq<char>, domain: Seq<char>, ip: Seq<char>) -> Option<
    Seq<char>,
> {
    let kept = kept_lines(content, domain, 0, true);
    if contains_text(content, hosts_entry(domain, ip)) {
        None
    } else if contains_text(kept, hosts_heading()) {
        Some(kept + hosts_entry(domain, ip) + "\n"@)
    } else {
        Some(kept + "\n"@ + hosts_heading() + "\n"@ + hosts_entry(domain, ip) + "\n"@)
    }
}

/// What a hosts file is to hold so that `domain` is bound to `ip`; see
/// [`hosts_with`].
pub fn updated_hosts(content: &str, domain: &str, ip: &str) -> (r: Option<String>)
    ensures
        maybe_string(r) == hosts_with(content@, domain@, ip@),
{
    let c = chars_of(content);
    let c = c.as_slice();
    let d = chars_of(domain);
    let d = d.as_slice();
    let mut entry: Vec<char> = Vec::new();
    push_text(&mut entry, ip);
    push_text(&mut entry, " ");
    push_text(&mut entry, domain);
    if contains(c, entry.as_slice()) {
        return None;
    }
    let mut out: Vec<char> = Vec::new();
    let mut first = true;
    let mut from: usize = 0;
    while from < c.len()
        invariant
            from <= c.len(),
            out@ + kept_lines(c@, d@, from as int, first) == kept_lines(c@, d@, 0, true),
        decreases c.len() - from,
    {
        let end = find_char(c, '\n', from);
        let stop = if end < c.len() && end > from && c[end - 1] == '\r' {
            end - 1
        } else {
            end
        };
        let ghost line = line_at(c@, from as int);
        let mut this: Vec<char> = Vec::new();
        push_range(&mut this, c, from, stop);
        proof {
            assert(this@ =~= line);
        }
        let next = if end < c.len() {
            end + 1
        } else {
            end
        };
        if !contains(this.as_slice(), d) {
            if !first {
                out.push('\n');
            }
            push_range(&mut out, c, from, stop);
            proof {
                reveal_strlit("\n");
            }
            first = false;
        }
        from = next;
    }
    let heading = chars_of("# Beam local domains");
    if !contains(out.as_slice(), heading.as_slice()) {
        push_text(&mut out, "\n");
        push_text(&mut out, "# Beam local domains");
        push_text(&mut out, "\n");
    }
    push_range(&mut out, entry.as_slice(), 0, entry.len());
    push_text(&mut out, "\n");
    Some(string_of(out.as_slice()))
}

} // verus!
