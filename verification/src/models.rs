//! The model picker: which models the selected provider offers, in label order.
use vstd::prelude::*;
use crate::state::{AppState, ModelDropdownEntry};
use crate::text::{chars_of, push_str, string_of, views};
use crate::types::Provider;

verus! {

/// A model entry: provider id, model id, label.
pub type ModelTriple = (Seq<char>, Seq<char>, Seq<char>);

/// Whether `a` comes before `b` in code-point order (the order of std's `str::cmp`,
/// since UTF-8 keeps it).
pub open spec fn label_lt(a: Seq<char>, b: Seq<char>) -> bool
    decreases a.len(),
{
    if b.len() == 0 {
        false
    } else if a.len() == 0 {
        true
    } else if a[0] != b[0] {
        (a[0] as u32) < (b[0] as u32)
    } else {
        label_lt(a.drop_first(), b.drop_first())
    }
}

/// The models of one provider, in the provider's order, each labelled by its name.
pub open spec fn provider_models(p: Provider) -> Seq<ModelTriple> {
    Seq::new(
        p.models.val_seq().len(),
        |k: int| (p.id@, p.models.val_seq()[k].id@, p.models.val_seq()[k].name@),
    )
}

/// The models of all providers, provider after provider.
pub open spec fn all_models(ps: Seq<Provider>) -> Seq<ModelTriple>
    decreases ps.len(),
{
    if ps.len() == 0 {
        Seq::empty()
    } else {
        all_models(ps.drop_last()) + provider_models(ps.last())
    }
}

/// The models offered for the provider choice `sel`: 0 stands for all providers,
/// `k` for the provider at position `k - 1`.
pub open spec fn models_for(ps: Seq<Provider>, sel: int) -> Seq<ModelTriple> {
    if sel == 0 {
        all_models(ps)
    } else if 0 < sel <= ps.len() {
        provider_models(ps[sel - 1])
    } else {
        Seq::empty()
    }
}

/// The position where `x` goes in `sorted`: before the first entry whose label
/// comes after `x`'s label, so that entries with equal labels keep their order.
pub open spec fn insertion_point(sorted: Seq<ModelTriple>, x: ModelTriple) -> int {
    if exists|k: int| 0 <= k < sorted.len() && label_lt(x.2, sorted[k].2) {
        choose|k: int| 0 <= k < sorted.len() && label_lt(x.2, sorted[k].2) && forall|l: int| 0 <= l < k ==> !label_lt(x.2, sorted[l].2)
    } else {
        sorted.len() as int
    }
}

/// `s` sorted by label, stably: entries with the same label keep their order.
pub open spec fn sort_by_label(s: Seq<ModelTriple>) -> Seq<ModelTriple>
    decreases s.len(),
{
    if s.len() == 0 {
        s
    } else {
        let sorted = sort_by_label(s.drop_last());
        sorted.insert(insertion_point(sorted, s.last()), s.last())
    }
}

/// The views of a list of string triples.
pub open spec fn triple_views(v: Seq<(String, String, String)>) -> Seq<ModelTriple> {
    v.map_values(|t: (String, String, String)| (t.0@, t.1@, t.2@))
}

/// Whether the label `a` comes before the label `b`.
pub fn label_less(a: &str, b: &str) -> (r: bool)
    ensures
        r == label_lt(a@, b@),
{
    let av = chars_of(a);
    let bv = chars_of(b);
    let mut i: usize = 0;
    assert(av@.skip(0) =~= av@);
    assert(bv@.skip(0) =~= bv@);
    while i < av.len() && i < bv.len() && av[i] == bv[i]
        invariant
            i <= av.len(),
            i <= bv.len(),
            label_lt(av@, bv@) == label_lt(av@.skip(i as int), bv@.skip(i as int)),
        decreases av.len() - i,
    {
        assert(av@.skip(i as int).drop_first() =~= av@.skip(i + 1));
        assert(bv@.skip(i as int).drop_first() =~= bv@.skip(i + 1));
        i += 1;
    }
    if i == bv.len() {
        false
    } else if i == av.len() {
        true
    } else {
        (av[i] as u32) < (bv[i] as u32)
    }
}

fn push_provider_models(out: &mut Vec<(String, String, String)>, p: &Provider)
    ensures
        triple_views(final(out)@) == triple_views(old(out)@) + provider_models(*p),
{
    let n = p.models.len();
    let mut k: usize = 0;
    while k < n
        invariant
            k <= n == p.models.val_seq().len() == p.models.key_seq().len(),
            triple_views(out@) == triple_views(old(out)@) + provider_models(*p).take(k as int),
        decreases n - k,
    {
        let m = p.models.value_at(k);
        let ghost before = triple_views(out@);
        out.push((p.id.clone(), m.id.clone(), m.name.clone()));
        proof {
            assert(triple_views(out@) =~= before.push(provider_models(*p)[k as int]));
            assert(provider_models(*p).take(k + 1) =~= provider_models(*p).take(k as int).push(provider_models(*p)[k as int]));
        }
        k += 1;
    }
    assert(provider_models(*p).take(n as int) =~= provider_models(*p));
}

fn insert_sorted(sorted: &mut Vec<(String, String, String)>, x: (String, String, String))
    ensures
        triple_views(final(sorted)@) == triple_views(old(sorted)@).insert(
            insertion_point(triple_views(old(sorted)@), (x.0@, x.1@, x.2@)),
            (x.0@, x.1@, x.2@),
        ),
{
    let ghost s = triple_views(sorted@);
    let ghost xv = (x.0@, x.1@, x.2@);
    let mut k: usize = 0;
    while k < sorted.len()
        invariant
            k <= sorted.len(),
            s == triple_views(sorted@),
            s == triple_views(old(sorted)@),
            xv == (x.0@, x.1@, x.2@),
            forall|l: int| 0 <= l < k ==> !label_lt(xv.2, s[l].2),
        decreases sorted.len() - k,
    {
        if label_less(x.2.as_str(), sorted[k].2.as_str()) {
            proof {
                let w = choose|j: int| 0 <= j < s.len() && label_lt(xv.2, s[j].2) && forall|l: int| 0 <= l < j ==> !label_lt(xv.2, s[l].2);
                assert(label_lt(xv.2, s[k as int].2));
                if w > k {
                    assert(!label_lt(xv.2, s[k as int].2));
                }
                assert(insertion_point(s, xv) == k);
            }
            sorted.insert(k, x);
            assert(triple_views(sorted@) =~= s.insert(k as int, xv));
            return;
        }
        k += 1;
    }
    sorted.push(x);
    assert(triple_views(sorted@) =~= s.insert(s.len() as int, xv));
}

fn sort_triples(items: Vec<(String, String, String)>) -> (r: Vec<(String, String, String)>)
    ensures
        triple_views(r@) == sort_by_label(triple_views(items@)),
{
    let mut sorted: Vec<(String, String, String)> = Vec::new();
    let mut rest = items;
    let ghost orig = triple_views(rest@);
    let mut i: usize = 0;
    assert(orig.take(0) =~= Seq::<ModelTriple>::empty());
    assert(orig.len() == rest.len());
    while rest.len() > 0
        invariant
            i + rest@.len() == orig.len(),
            orig.len() <= usize::MAX,
            triple_views(rest@) == orig.skip(i as int),
            triple_views(sorted@) == sort_by_label(orig.take(i as int)),
        decreases rest@.len(),
    {
        let ghost r0 = rest@;
        let x = rest.remove(0);
        proof {
            assert(r0[0] == x);
            assert(triple_views(r0)[0] == (x.0@, x.1@, x.2@));
            assert(orig.skip(i as int)[0] == orig[i as int]);
            assert(triple_views(rest@) =~= triple_views(r0).drop_first());
            assert(orig.take(i + 1).drop_last() =~= orig.take(i as int));
            assert(orig.take(i + 1).last() == (x.0@, x.1@, x.2@));
        }
        insert_sorted(&mut sorted, x);
        i += 1;
        proof {
            assert(triple_views(rest@) =~= orig.skip(i as int));
        }
    }
    assert(orig.take(i as int) =~= orig);
    sorted
}

impl AppState {
    /// The models for the selected provider (all of them for "Default"), as
    /// (provider id, model id, label), sorted by label.
    pub fn get_models_for_selected_provider(&self) -> (r: Vec<(String, String, String)>)
        ensures
            triple_views(r@) == sort_by_label(models_for(self.providers@, self.selected_provider_idx as int)),
    {
        let mut models: Vec<(String, String, String)> = Vec::new();
        if self.selected_provider_idx == 0 {
            let mut i: usize = 0;
            while i < self.providers.len()
                invariant
                    i <= self.providers.len(),
                    triple_views(models@) == all_models(self.providers@.take(i as int)),
                decreases self.providers.len() - i,
            {
                proof {
                    assert(self.providers@.take(i + 1).drop_last() =~= self.providers@.take(i as int));
                }
                push_provider_models(&mut models, &self.providers[i]);
                i += 1;
            }
            assert(self.providers@.take(self.providers.len() as int) =~= self.providers@);
        } else if self.selected_provider_idx - 1 < self.providers.len() {
            push_provider_models(&mut models, &self.providers[self.selected_provider_idx - 1]);
            assert(triple_views(models@) =~= provider_models(self.providers@[self.selected_provider_idx - 1]));
        } else {
            assert(triple_views(models@) =~= Seq::<ModelTriple>::empty());
        }
        sort_triples(models)
    }

    /// Refreshes the model list from the selected provider and selects its first entry.
    pub fn update_model_list_for_provider(&mut self)
        ensures
            views(final(self).model_labels@) == sort_by_label(
                models_for(old(self).providers@, old(self).selected_provider_idx as int),
            ).map_values(|t: ModelTriple| t.2),
            final(self).model_entries@.map_values(|e: (String, String)| (e.0@, e.1@)) == sort_by_label(
                models_for(old(self).providers@, old(self).selected_provider_idx as int),
            ).map_values(|t: ModelTriple| (t.0, t.1)),
            *final(self) == (AppState {
                model_labels: final(self).model_labels,
                model_entries: final(self).model_entries,
                selected_model_idx: 0,
                ..*old(self)
            }),
    {
        let models = self.get_models_for_selected_provider();
        let ghost sorted = triple_views(models@);
        let mut labels: Vec<String> = Vec::new();
        let mut entries: Vec<(String, String)> = Vec::new();
        let mut k: usize = 0;
        while k < models.len()
            invariant
                k <= models.len(),
                sorted == triple_views(models@),
                views(labels@) == sorted.take(k as int).map_values(|t: ModelTriple| t.2),
                entries@.map_values(|e: (String, String)| (e.0@, e.1@)) == sorted.take(k as int).map_values(|t: ModelTriple| (t.0, t.1)),
            decreases models.len() - k,
        {
            let ghost lb = views(labels@);
            let ghost eb = entries@.map_values(|e: (String, String)| (e.0@, e.1@));
            labels.push(models[k].2.clone());
            entries.push((models[k].0.clone(), models[k].1.clone()));
            proof {
                assert(views(labels@) =~= lb.push(sorted[k as int].2));
                assert(entries@.map_values(|e: (String, String)| (e.0@, e.1@)) =~= eb.push((sorted[k as int].0, sorted[k as int].1)));
                assert(sorted.take(k + 1).map_values(|t: ModelTriple| t.2) =~= sorted.take(k as int).map_values(|t: ModelTriple| t.2).push(sorted[k as int].2));
                assert(sorted.take(k + 1).map_values(|t: ModelTriple| (t.0, t.1)) =~= sorted.take(k as int).map_values(|t: ModelTriple| (t.0, t.1)).push((sorted[k as int].0, sorted[k as int].1)));
            }
            k += 1;
        }
        assert(sorted.take(models.len() as int) =~= sorted);
        self.model_labels = labels;
        self.model_entries = entries;
        self.selected_model_idx = 0;
    }
}

/// No label comes before itself.
pub proof fn lemma_label_lt_irreflexive(a: Seq<char>)
    ensures
        !label_lt(a, a),
    decreases a.len(),
{
    if a.len() > 0 {
        lemma_label_lt_irreflexive(a.drop_first());
    }
}

/// Of two different labels, one comes before the other, and never both.
pub proof fn lemma_label_lt_total(a: Seq<char>, b: Seq<char>)
    ensures
        a != b ==> label_lt(a, b) || label_lt(b, a),
        !(label_lt(a, b) && label_lt(b, a)),
    decreases a.len(),
{
    if a.len() > 0 && b.len() > 0 {
        if a[0] == b[0] {
            lemma_label_lt_total(a.drop_first(), b.drop_first());
            if a != b {
                if a.drop_first() == b.drop_first() {
                    assert(a =~= seq![a[0]] + a.drop_first());
                    assert(b =~= seq![b[0]] + b.drop_first());
                }
            }
        } else {
            vstd::utf8::char_u32_cast(a[0], a[0] as u32);
            vstd::utf8::char_u32_cast(b[0], b[0] as u32);
            assert((a[0] as u32) != (b[0] as u32));
        }
    } else if a.len() == 0 && b.len() == 0 {
        assert(a =~= b);
    }
}

/// The order of labels is transitive.
pub proof fn lemma_label_lt_transitive(a: Seq<char>, b: Seq<char>, c: Seq<char>)
    requires
        label_lt(a, b),
        label_lt(b, c),
    ensures
        label_lt(a, c),
    decreases a.len(),
{
    if a.len() > 0 && b.len() > 0 && c.len() > 0 && a[0] == b[0] && b[0] == c[0] {
        lemma_label_lt_transitive(a.drop_first(), b.drop_first(), c.drop_first());
    }
}

/// Whether a list of entries is in label order.
pub open spec fn sorted_by_label(s: Seq<ModelTriple>) -> bool {
    forall|i: int, j: int| 0 <= i < j < s.len() ==> !label_lt(#[trigger] s[j].2, #[trigger] s[i].2)
}

proof fn lemma_insert_sorted(sorted: Seq<ModelTriple>, x: ModelTriple)
    requires
        sorted_by_label(sorted),
    ensures
        sorted_by_label(sorted.insert(insertion_point(sorted, x), x)),
        0 <= insertion_point(sorted, x) <= sorted.len(),
{
    let has = exists|k: int| 0 <= k < sorted.len() && label_lt(x.2, sorted[k].2);
    if has {
        let w = choose|k: int| 0 <= k < sorted.len() && label_lt(x.2, sorted[k].2);
        lemma_first_label_after(sorted, x, w);
    }
    let p = insertion_point(sorted, x);
    let r = sorted.insert(p, x);
    assert forall|i: int, j: int| 0 <= i < j < r.len() implies !label_lt(#[trigger] r[j].2, #[trigger] r[i].2) by {
        if i < p && j == p {
            assert(!label_lt(x.2, sorted[i].2));
        } else if i == p && j > p {
            let z = sorted[j - 1].2;
            let y = sorted[p].2;
            assert(label_lt(x.2, y));
            if j - 1 > p {
                assert(!label_lt(z, y));
                lemma_label_lt_total(y, z);
                if y != z {
                    lemma_label_lt_transitive(x.2, y, z);
                }
            }
            lemma_label_lt_total(x.2, z);
        } else if i < p && j < p {
            assert(r[i] == sorted[i] && r[j] == sorted[j]);
        } else if i < p && j > p {
            assert(r[i] == sorted[i] && r[j] == sorted[j - 1]);
        } else {
            assert(r[i] == sorted[i - 1] && r[j] == sorted[j - 1]);
        }
    }
}

proof fn lemma_first_label_after(sorted: Seq<ModelTriple>, x: ModelTriple, w: int)
    requires
        0 <= w < sorted.len(),
        label_lt(x.2, sorted[w].2),
    ensures
        exists|k: int| 0 <= k < sorted.len() && label_lt(x.2, sorted[k].2)
            && forall|l: int| 0 <= l < k ==> !label_lt(x.2, sorted[l].2),
    decreases w,
{
    if exists|l: int| 0 <= l < w && label_lt(x.2, sorted[l].2) {
        let l = choose|l: int| 0 <= l < w && label_lt(x.2, sorted[l].2);
        lemma_first_label_after(sorted, x, l);
    }
}

/// The model list is in label order, and it holds the same entries as before,
/// each as many times.
pub proof fn law_model_list_is_sorted(s: Seq<ModelTriple>)
    ensures
        sorted_by_label(sort_by_label(s)),
        sort_by_label(s).to_multiset() == s.to_multiset(),
    decreases s.len(),
{
    broadcast use vstd::seq_lib::group_to_multiset_ensures;
    if s.len() > 0 {
        law_model_list_is_sorted(s.drop_last());
        let sorted = sort_by_label(s.drop_last());
        lemma_insert_sorted(sorted, s.last());
        assert(s =~= s.drop_last().push(s.last()));
        assert(s.to_multiset() == s.drop_last().to_multiset().insert(s.last()));
    }
}

/// An entry of the model picker as plain values.
pub struct EntryView {
    pub label: Seq<char>,
    pub provider_id: Option<Seq<char>>,
    pub model_id: Option<Seq<char>>,
    pub selectable: bool,
}

/// The view of a model picker entry.
pub open spec fn entry_view(e: ModelDropdownEntry) -> EntryView {
    EntryView {
        label: e.label@,
        provider_id: match e.provider_id {
            Some(p) => Some(p@),
            None => None,
        },
        model_id: match e.model_id {
            Some(m) => Some(m@),
            None => None,
        },
        selectable: e.selectable,
    }
}

/// The views of a list of model picker entries.
pub open spec fn entry_views(es: Seq<ModelDropdownEntry>) -> Seq<EntryView> {
    es.map_values(|e: ModelDropdownEntry| entry_view(e))
}

/// The entries of one provider: nothing when it has no model; else a header
/// with its name, then its models in label order, indented.
pub open spec fn provider_entries(p: Provider) -> Seq<EntryView> {
    if p.models.val_seq().len() == 0 {
        Seq::empty()
    } else {
        seq![EntryView { label: p.name@, provider_id: None, model_id: None, selectable: false }]
            + sort_by_label(provider_models(p)).map_values(|t: ModelTriple| EntryView {
                label: "  "@ + t.2,
                provider_id: Some(t.0),
                model_id: Some(t.1),
                selectable: true,
            })
    }
}

/// The entries of the providers of a list, one after the other.
pub open spec fn providers_entries(ps: Seq<Provider>) -> Seq<EntryView>
    decreases ps.len(),
{
    if ps.len() == 0 { Seq::empty() } else { providers_entries(ps.drop_last()) + provider_entries(ps.last()) }
}

/// The model picker: "Default", then each provider's entries.
pub open spec fn model_picker(ps: Seq<Provider>) -> Seq<EntryView> {
    seq![EntryView { label: "Default"@, provider_id: None, model_id: None, selectable: true }] + providers_entries(ps)
}

/// The entries of the model picker for a list of providers.
pub fn build_model_entries(providers: &Vec<Provider>) -> (r: Vec<ModelDropdownEntry>)
    ensures
        entry_views(r@) == model_picker(providers@),
{
    let mut entries: Vec<ModelDropdownEntry> = Vec::new();
    entries.push(ModelDropdownEntry::default_option());
    let mut i: usize = 0;
    proof {
        assert(providers@.take(0) =~= Seq::<Provider>::empty());
        assert(entry_views(entries@) =~= model_picker(providers@.take(0)));
    }
    while i < providers.len()
        invariant
            i <= providers.len(),
            entry_views(entries@) == model_picker(providers@.take(i as int)),
        decreases providers.len() - i,
    {
        let p = &providers[i];
        let ghost e0 = entry_views(entries@);
        proof {
            assert(providers@.take(i + 1).drop_last() =~= providers@.take(i as int));
            assert(providers@.take(i + 1).last() == *p);
        }
        if p.models.len() > 0 {
            entries.push(ModelDropdownEntry::provider_header(p.name.clone()));
            let ghost e1 = entry_views(entries@);
            let mut ms: Vec<(String, String, String)> = Vec::new();
            push_provider_models(&mut ms, p);
            assert(triple_views(ms@) =~= provider_models(*p));
            let sorted = sort_triples(ms);
            let ghost sv = triple_views(sorted@);
            let mut k: usize = 0;
            while k < sorted.len()
                invariant
                    k <= sorted.len(),
                    sv == triple_views(sorted@),
                    entry_views(entries@) == e1 + sv.take(k as int).map_values(|t: ModelTriple| EntryView {
                        label: "  "@ + t.2,
                        provider_id: Some(t.0),
                        model_id: Some(t.1),
                        selectable: true,
                    }),
                decreases sorted.len() - k,
            {
                let ghost eb = entry_views(entries@);
                let mut label: Vec<char> = Vec::new();
                push_str(&mut label, "  ");
                push_str(&mut label, sorted[k].2.as_str());
                let e = ModelDropdownEntry::model_option(sorted[k].0.clone(), sorted[k].1.clone(), string_of(label.as_slice()));
                entries.push(e);
                proof {
                    assert(entry_views(entries@) =~= eb.push(entry_view(e)));
                    assert(sv.take(k + 1).map_values(|t: ModelTriple| EntryView {
                        label: "  "@ + t.2,
                        provider_id: Some(t.0),
                        model_id: Some(t.1),
                        selectable: true,
                    }) =~= sv.take(k as int).map_values(|t: ModelTriple| EntryView {
                        label: "  "@ + t.2,
                        provider_id: Some(t.0),
                        model_id: Some(t.1),
                        selectable: true,
                    }).push(entry_view(e)));
                }
                k += 1;
            }
            proof {
                assert(sv.take(sorted.len() as int) =~= sv);
                assert(e1 =~= e0.push(EntryView { label: p.name@, provider_id: None, model_id: None, selectable: false }));
                assert(entry_views(entries@) =~= e0 + provider_entries(*p));
            }
        } else {
            assert(entry_views(entries@) =~= e0 + provider_entries(*p));
        }
        i += 1;
    }
    proof {
        assert(providers@.take(providers.len() as int) =~= providers@);
    }
    entries
}

/// With a provider chosen (entry `sel` of the picker, after "Default"), the
/// models offered are exactly that provider's: each has its provider id, and
/// each of its models is offered, once.
pub proof fn law_selected_provider_offers_its_models(ps: Seq<Provider>, sel: int)
    requires
        0 < sel <= ps.len(),
    ensures
        forall|t: ModelTriple| #[trigger] sort_by_label(models_for(ps, sel)).contains(t) ==> t.0 == ps[sel - 1].id@,
        forall|k: int| 0 <= k < ps[sel - 1].models.val_seq().len() ==> sort_by_label(models_for(ps, sel)).contains(
            (ps[sel - 1].id@, #[trigger] ps[sel - 1].models.val_seq()[k].id@, ps[sel - 1].models.val_seq()[k].name@),
        ),
        sort_by_label(models_for(ps, sel)).len() == ps[sel - 1].models.val_seq().len(),
{
    broadcast use vstd::seq_lib::group_to_multiset_ensures;
    let s = models_for(ps, sel);
    let p = ps[sel - 1];
    law_model_list_is_sorted(s);
    let sorted = sort_by_label(s);
    assert forall|t: ModelTriple| #[trigger] sorted.contains(t) implies t.0 == p.id@ by {
        assert(sorted.to_multiset().count(t) > 0);
        assert(s.contains(t));
        let k = choose|k: int| 0 <= k < s.len() && s[k] == t;
        assert(s[k].0 == p.id@);
    }
    assert forall|k: int| 0 <= k < p.models.val_seq().len() implies sorted.contains(
        (p.id@, #[trigger] p.models.val_seq()[k].id@, p.models.val_seq()[k].name@),
    ) by {
        let t = (p.id@, p.models.val_seq()[k].id@, p.models.val_seq()[k].name@);
        assert(s[k] == t);
        assert(s.contains(t));
        assert(sorted.to_multiset().count(t) > 0);
    }
    assert(sorted.len() == sorted.to_multiset().len());
}

/// Every model of every provider is among the models of all providers, under
/// its provider's id; and every entry there is a model of some provider.
proof fn lemma_all_models_members(ps: Seq<Provider>)
    ensures
        forall|i: int, k: int| 0 <= i < ps.len() && 0 <= k < ps[i].models.val_seq().len() ==> all_models(ps).contains(
            (ps[i].id@, #[trigger] ps[i].models.val_seq()[k].id@, ps[i].models.val_seq()[k].name@),
        ),
        forall|t: ModelTriple| #[trigger] all_models(ps).contains(t) ==> exists|i: int| 0 <= i < ps.len() && t.0 == ps[i].id@,
    decreases ps.len(),
{
    if ps.len() > 0 {
        let init = ps.drop_last();
        lemma_all_models_members(init);
        let a = all_models(init);
        let b = provider_models(ps.last());
        assert(all_models(ps) == a + b);
        assert forall|i: int, k: int| 0 <= i < ps.len() && 0 <= k < ps[i].models.val_seq().len() implies all_models(ps).contains(
            (ps[i].id@, #[trigger] ps[i].models.val_seq()[k].id@, ps[i].models.val_seq()[k].name@),
        ) by {
            let t = (ps[i].id@, ps[i].models.val_seq()[k].id@, ps[i].models.val_seq()[k].name@);
            if i < ps.len() - 1 {
                assert(init[i] == ps[i]);
                assert(a.contains(t));
                let w = choose|w: int| 0 <= w < a.len() && a[w] == t;
                assert((a + b)[w] == t);
            } else {
                assert(b[k] == t);
                assert((a + b)[a.len() + k] == t);
            }
        }
        assert forall|t: ModelTriple| #[trigger] all_models(ps).contains(t) implies exists|i: int| 0 <= i < ps.len() && t.0 == ps[i].id@ by {
            let w = choose|w: int| 0 <= w < (a + b).len() && (a + b)[w] == t;
            if w < a.len() {
                assert(a[w] == t);
                assert(a.contains(t));
                let i = choose|i: int| 0 <= i < init.len() && t.0 == init[i].id@;
                assert(init[i] == ps[i]);
            } else {
                assert(b[w - a.len()] == t);
                assert(t.0 == ps[ps.len() - 1].id@);
            }
        }
    }
}

/// With "Default" chosen, the models offered are those of all providers: each
/// model of each provider is offered under its provider's id, and each model
/// offered belongs to some provider.
pub proof fn law_default_offers_every_model(ps: Seq<Provider>)
    ensures
        forall|i: int, k: int| 0 <= i < ps.len() && 0 <= k < ps[i].models.val_seq().len() ==> sort_by_label(models_for(ps, 0)).contains(
            (ps[i].id@, #[trigger] ps[i].models.val_seq()[k].id@, ps[i].models.val_seq()[k].name@),
        ),
        forall|t: ModelTriple| #[trigger] sort_by_label(models_for(ps, 0)).contains(t) ==> exists|i: int| 0 <= i < ps.len() && t.0 == ps[i].id@,
{
    broadcast use vstd::seq_lib::group_to_multiset_ensures;
    let s = models_for(ps, 0);
    law_model_list_is_sorted(s);
    lemma_all_models_members(ps);
    let sorted = sort_by_label(s);
    assert forall|i: int, k: int| 0 <= i < ps.len() && 0 <= k < ps[i].models.val_seq().len() implies sorted.contains(
        (ps[i].id@, #[trigger] ps[i].models.val_seq()[k].id@, ps[i].models.val_seq()[k].name@),
    ) by {
        let t = (ps[i].id@, ps[i].models.val_seq()[k].id@, ps[i].models.val_seq()[k].name@);
        assert(s.contains(t));
        assert(sorted.to_multiset().count(t) > 0);
    }
    assert forall|t: ModelTriple| #[trigger] sorted.contains(t) implies exists|i: int| 0 <= i < ps.len() && t.0 == ps[i].id@ by {
        assert(sorted.to_multiset().count(t) > 0);
        assert(s.contains(t));
    }
}

} // verus!
