//! Identity bridges: their configuration and the registry that holds them.
//!
//! A bridge says which external credential format is accepted and how its
//! claims map to the fields of a root authority token.

use vstd::prelude::*;
use vstd::string::*;
use crate::error::{Error, ErrorKind};
use crate::text::{clone_strings, str_eq};

verus! {

/// Supported bridge types.
#[derive(Clone, Copy, Debug, PartialEq, Eq, Structural)]
pub enum BridgeType {
    /// JWT/OIDC token bridge
    Jwt,
}

/// One custom mapping: the token claim `claim` is copied to the token field `field`.
#[derive(Debug)]
pub struct ClaimMapping {
    pub claim: String,
    pub field: String,
}

/// Claim to token-field mapping.
#[derive(Debug)]
pub struct MappingConfig {
    /// Claim to use for the subject (empty: "sub")
    pub subject_claim: String,
    /// Claim to use for the organization (empty: "org")
    pub organization_claim: String,
    /// Custom claim mappings, in the order they are applied; a mapping
    /// that is well-formed maps every claim once
    pub custom: Vec<ClaimMapping>,
}

/// JWT bridge configuration.
#[derive(Debug)]
pub struct JwtBridgeConfig {
    /// OIDC well-known URL for key discovery
    pub wellknown_url: String,
    /// Expected issuer claim
    pub issuer: String,
    /// Allowed audiences
    pub audiences: Vec<String>,
    /// Claim mapping
    pub mapping: MappingConfig,
}

/// Type-specific bridge configuration.
#[derive(Debug)]
pub enum BridgeTypeConfig {
    /// JWT bridge configuration
    Jwt(JwtBridgeConfig),
}

/// Bridge configuration.
#[derive(Debug)]
pub struct BridgeConfig {
    /// Unique identifier
    pub id: String,
    /// Bridge type
    pub bridge_type: BridgeType,
    /// Whether the bridge may be used for exchange
    pub enabled: bool,
    /// Type-specific configuration
    pub config: BridgeTypeConfig,
}

/// The mathematical form of a claim mapping.
pub ghost struct ClaimMappingView {
    pub claim: Seq<char>,
    pub field: Seq<char>,
}

/// The mathematical form of a claim-to-field mapping.
pub ghost struct MappingView {
    pub subject_claim: Seq<char>,
    pub organization_claim: Seq<char>,
    pub custom: Seq<ClaimMappingView>,
}

/// The mathematical form of a JWT bridge configuration.
pub ghost struct JwtBridgeView {
    pub wellknown_url: Seq<char>,
    pub issuer: Seq<char>,
    pub audiences: Seq<Seq<char>>,
    pub mapping: MappingView,
}

/// The mathematical form of a type-specific bridge configuration.
pub ghost enum BridgeTypeConfigView {
    Jwt(JwtBridgeView),
}

/// The mathematical form of a bridge configuration.
pub ghost struct BridgeConfigView {
    pub id: Seq<char>,
    pub bridge_type: BridgeType,
    pub enabled: bool,
    pub config: BridgeTypeConfigView,
}

impl View for ClaimMapping {
    type V = ClaimMappingView;

    open spec fn view(&self) -> ClaimMappingView {
        ClaimMappingView { claim: self.claim@, field: self.field@ }
    }
}

impl DeepView for ClaimMapping {
    type V = ClaimMappingView;

    open spec fn deep_view(&self) -> ClaimMappingView {
        self.view()
    }
}

impl View for MappingConfig {
    type V = MappingView;

    open spec fn view(&self) -> MappingView {
        MappingView {
            subject_claim: self.subject_claim@,
            organization_claim: self.organization_claim@,
            custom: self.custom.deep_view(),
        }
    }
}

impl View for JwtBridgeConfig {
    type V = JwtBridgeView;

    open spec fn view(&self) -> JwtBridgeView {
        JwtBridgeView {
            wellknown_url: self.wellknown_url@,
            issuer: self.issuer@,
            audiences: self.audiences.deep_view(),
            mapping: self.mapping@,
        }
    }
}

impl View for BridgeTypeConfig {
    type V = BridgeTypeConfigView;

    open spec fn view(&self) -> BridgeTypeConfigView {
        match self {
            BridgeTypeConfig::Jwt(jwt) => BridgeTypeConfigView::Jwt(jwt@),
        }
    }
}

impl View for BridgeConfig {
    type V = BridgeConfigView;

    open spec fn view(&self) -> BridgeConfigView {
        BridgeConfigView {
            id: self.id@,
            bridge_type: self.bridge_type,
            enabled: self.enabled,
            config: self.config@,
        }
    }
}

impl DeepView for BridgeConfig {
    type V = BridgeConfigView;

    open spec fn deep_view(&self) -> BridgeConfigView {
        self.view()
    }
}

impl Clone for ClaimMapping {
    fn clone(&self) -> (out: Self)
        ensures
            out@ == self@,
    {
        ClaimMapping { claim: self.claim.clone(), field: self.field.clone() }
    }
}

impl Clone for MappingConfig {
    fn clone(&self) -> (out: Self)
        ensures
            out@ == self@,
    {
        let mut custom: Vec<ClaimMapping> = Vec::new();
        let mut i: usize = 0;
        while i < self.custom.len()
            invariant
                i <= self.custom.len(),
                custom.len() == i,
                forall|j: int| 0 <= j < i ==> custom@[j]@ == self.custom@[j]@,
            decreases self.custom.len() - i,
        {
            custom.push(self.custom[i].clone());
            i += 1;
        }
        assert(custom.deep_view() =~= self.custom.deep_view());
        MappingConfig {
            subject_claim: self.subject_claim.clone(),
            organization_claim: self.organization_claim.clone(),
            custom,
        }
    }
}

impl Default for MappingConfig {
    /// The mapping with no claim named: subject and organization fall back
    /// to "sub" and "org", and nothing else is copied.
    fn default() -> (out: Self)
        ensures
            out@.subject_claim.len() == 0,
            out@.organization_claim.len() == 0,
            out@.custom.len() == 0,
            out.wf(),
    {
        MappingConfig {
            subject_claim: String::new(),
            organization_claim: String::new(),
            custom: Vec::new(),
        }
    }
}

impl MappingConfig {
    /// Every claim is mapped once.
    pub open spec fn wf(&self) -> bool {
        distinct_claims(self@.custom)
    }

    fn find_claim(&self, claim: &str) -> (at: Option<usize>)
        ensures
            match at {
                Some(i) => i < self.custom.len() && self@.custom[i as int].claim == claim@,
                None => !maps_claim(self@.custom, claim@),
            },
    {
        let mut i: usize = 0;
        while i < self.custom.len()
            invariant
                i <= self.custom.len(),
                forall|j: int| 0 <= j < i ==> (#[trigger] self@.custom[j]).claim != claim@,
            decreases self.custom.len() - i,
        {
            if str_eq(self.custom[i].claim.as_str(), claim) {
                return Some(i);
            }
            i += 1;
        }
        None
    }

    /// Whether every claim is mapped once.
    pub fn is_well_formed(&self) -> (ok: bool)
        ensures
            ok == self.wf(),
    {
        let mut i: usize = 0;
        while i < self.custom.len()
            invariant
                i <= self.custom.len(),
                forall|a: int, b: int|
                    0 <= a < i && 0 <= b < self.custom.len() && #[trigger] self@.custom[a].claim
                        == #[trigger] self@.custom[b].claim ==> a == b,
            decreases self.custom.len() - i,
        {
            let mut j: usize = 0;
            while j < self.custom.len()
                invariant
                    i < self.custom.len(),
                    j <= self.custom.len(),
                    forall|b: int|
                        0 <= b < j && self@.custom[i as int].claim == (
                        #[trigger] self@.custom[b]).claim ==> b == i,
                decreases self.custom.len() - j,
            {
                if j != i && str_eq(
                    self.custom[i].claim.as_str(),
                    self.custom[j].claim.as_str(),
                ) {
                    assert(self@.custom[i as int].claim == self@.custom[j as int].claim);
                    return false;
                }
                j += 1;
            }
            i += 1;
        }
        true
    }

    /// Maps a claim: a mapping of the same claim is replaced in its place,
    /// any other mapping is put at the end.
    pub fn map_claim(&mut self, mapping: ClaimMapping)
        requires
            old(self).wf(),
        ensures
            final(self).wf(),
            final(self)@ == (MappingView {
                custom: put_mapping(old(self)@.custom, mapping@),
                ..old(self)@
            }),
    {
        proof {
            lemma_put_mapping_distinct(self@.custom, mapping@);
        }
        let ghost before = self@.custom;
        match self.find_claim(mapping.claim.as_str()) {
            Some(i) => {
                assert(before[i as int].claim == mapping@.claim);
                assert(mapping_at(before, mapping@.claim) == i);
                self.custom.set(i, mapping);
                assert(self@.custom =~= before.update(i as int, mapping@));
            },
            None => {
                self.custom.push(mapping);
                assert(self@.custom =~= before.push(mapping@));
            },
        }
    }
}

/// Merges mappings into a list that maps every claim once: of two
/// mappings of one claim the later stands, in the place of the earlier.
pub fn merge_mappings(entries: &Vec<ClaimMapping>) -> (out: Vec<ClaimMapping>)
    ensures
        out.deep_view() == merged(entries.deep_view()),
        distinct_claims(out.deep_view()),
{
    let ghost all = entries.deep_view();
    let mut acc = MappingConfig::default();
    let ghost first = acc@;
    let mut i: usize = 0;
    assert(acc@.custom =~= merged(all.take(0)));
    while i < entries.len()
        invariant
            i <= entries.len(),
            all == entries.deep_view(),
            acc.wf(),
            acc@.custom == merged(all.take(i as int)),
        decreases entries.len() - i,
    {
        let ghost upto = all.take(i + 1);
        assert(upto.last() == all[i as int]);
        assert(upto.drop_last() =~= all.take(i as int));
        acc.map_claim(entries[i].clone());
        i += 1;
    }
    assert(all.take(i as int) =~= all);
    acc.custom
}

impl Clone for JwtBridgeConfig {
    fn clone(&self) -> (out: Self)
        ensures
            out@ == self@,
    {
        JwtBridgeConfig {
            wellknown_url: self.wellknown_url.clone(),
            issuer: self.issuer.clone(),
            audiences: clone_strings(&self.audiences),
            mapping: self.mapping.clone(),
        }
    }
}

impl Clone for BridgeTypeConfig {
    fn clone(&self) -> (out: Self)
        ensures
            out@ == self@,
    {
        match self {
            BridgeTypeConfig::Jwt(jwt) => BridgeTypeConfig::Jwt(jwt.clone()),
        }
    }
}

impl Clone for BridgeConfig {
    fn clone(&self) -> (out: Self)
        ensures
            out@ == self@,
    {
        BridgeConfig {
            id: self.id.clone(),
            bridge_type: self.bridge_type,
            enabled: self.enabled,
            config: self.config.clone(),
        }
    }
}


/// No claim is mapped twice in `s`.
pub open spec fn distinct_claims(s: Seq<ClaimMappingView>) -> bool {
    forall|i: int, j: int|
        0 <= i < s.len() && 0 <= j < s.len() && #[trigger] s[i].claim == #[trigger] s[j].claim
            ==> i == j
}

/// Whether `s` maps the claim `claim`.
pub open spec fn maps_claim(s: Seq<ClaimMappingView>, claim: Seq<char>) -> bool {
    exists|i: int| 0 <= i < s.len() && #[trigger] s[i].claim == claim
}

/// Where `s` maps the claim `claim`, where it does.
pub open spec fn mapping_at(s: Seq<ClaimMappingView>, claim: Seq<char>) -> int {
    choose|i: int| 0 <= i < s.len() && #[trigger] s[i].claim == claim
}

/// `s` with the mapping `m` put in: in the place of the mapping of the
/// same claim where there is one, at the end where there is none.
pub open spec fn put_mapping(s: Seq<ClaimMappingView>, m: ClaimMappingView) -> Seq<
    ClaimMappingView,
> {
    if maps_claim(s, m.claim) {
        s.update(mapping_at(s, m.claim), m)
    } else {
        s.push(m)
    }
}

/// The mappings of `entries` put in one after the other: of two mappings
/// of one claim the later stands, in the place of the earlier.
pub open spec fn merged(entries: Seq<ClaimMappingView>) -> Seq<ClaimMappingView>
    decreases entries.len(),
{
    if entries.len() == 0 {
        Seq::empty()
    } else {
        put_mapping(merged(entries.drop_last()), entries.last())
    }
}

/// Putting a mapping in keeps every claim mapped once.
pub proof fn lemma_put_mapping_distinct(s: Seq<ClaimMappingView>, m: ClaimMappingView)
    requires
        distinct_claims(s),
    ensures
        distinct_claims(put_mapping(s, m)),
{
    let t = put_mapping(s, m);
    if maps_claim(s, m.claim) {
        let p = mapping_at(s, m.claim);
        assert forall|i: int, j: int|
            0 <= i < t.len() && 0 <= j < t.len() && #[trigger] t[i].claim == #[trigger] t[j].claim implies i
            == j by {
            assert(s[i].claim == t[i].claim);
            assert(s[j].claim == t[j].claim);
        }
    } else {
        assert forall|i: int, j: int|
            0 <= i < t.len() && 0 <= j < t.len() && #[trigger] t[i].claim == #[trigger] t[j].claim implies i
            == j by {
            if i < s.len() {
                assert(s[i].claim == t[i].claim);
            }
            if j < s.len() {
                assert(s[j].claim == t[j].claim);
            }
        }
    }
}

/// Merged mappings map every claim once.
pub proof fn lemma_merged_distinct(entries: Seq<ClaimMappingView>)
    ensures
        distinct_claims(merged(entries)),
    decreases entries.len(),
{
    if entries.len() > 0 {
        lemma_merged_distinct(entries.drop_last());
        lemma_put_mapping_distinct(merged(entries.drop_last()), entries.last());
    }
}

/// Mappings that map every claim once are left as they are.
pub proof fn lemma_merged_of_distinct(entries: Seq<ClaimMappingView>)
    requires
        distinct_claims(entries),
    ensures
        merged(entries) == entries,
    decreases entries.len(),
{
    if entries.len() == 0 {
        assert(entries =~= Seq::<ClaimMappingView>::empty());
    } else {
        let head = entries.drop_last();
        assert forall|i: int, j: int|
            0 <= i < head.len() && 0 <= j < head.len() && #[trigger] head[i].claim
                == #[trigger] head[j].claim implies i == j by {
            assert(entries[i].claim == entries[j].claim);
        }
        lemma_merged_of_distinct(head);
        if maps_claim(head, entries.last().claim) {
            let p = mapping_at(head, entries.last().claim);
            assert(entries[p].claim == entries[entries.len() - 1].claim);
        }
        assert(head.push(entries.last()) =~= entries);
    }
}

/// Whether some entry of `s` has the identifier `id`.
pub open spec fn has_id(s: Seq<BridgeConfigView>, id: Seq<char>) -> bool {
    exists|i: int| 0 <= i < s.len() && #[trigger] s[i].id == id
}

/// The position of the entry with identifier `id`, where there is one.
pub open spec fn position_of(s: Seq<BridgeConfigView>, id: Seq<char>) -> int {
    choose|i: int| 0 <= i < s.len() && #[trigger] s[i].id == id
}

/// No identifier occurs twice in `s`.
pub open spec fn distinct_ids(s: Seq<BridgeConfigView>) -> bool {
    forall|i: int, j: int|
        0 <= i < s.len() && 0 <= j < s.len() && #[trigger] s[i].id == #[trigger] s[j].id ==> i == j
}

/// The entries of `s` as a map from identifier to configuration.
pub open spec fn entries_map(s: Seq<BridgeConfigView>) -> Map<Seq<char>, BridgeConfigView> {
    Map::new(|id: Seq<char>| has_id(s, id), |id: Seq<char>| s[position_of(s, id)])
}

/// `s` with `c` stored under its identifier: in place where the identifier
/// is present, at the end where it is not.
pub open spec fn upsert(s: Seq<BridgeConfigView>, c: BridgeConfigView) -> Seq<BridgeConfigView> {
    if has_id(s, c.id) {
        s.update(position_of(s, c.id), c)
    } else {
        s.push(c)
    }
}

/// `s` without the entry `id`.
pub open spec fn without(s: Seq<BridgeConfigView>, id: Seq<char>) -> Seq<BridgeConfigView> {
    if has_id(s, id) {
        s.remove(position_of(s, id))
    } else {
        s
    }
}

/// The identifiers of the first `n` entries of `s`.
pub open spec fn ids_upto(s: Seq<BridgeConfigView>, n: int) -> Set<Seq<char>> {
    Set::new(|id: Seq<char>| exists|i: int| 0 <= i < n && i < s.len() && #[trigger] s[i].id == id)
}

proof fn lemma_ids_upto(s: Seq<BridgeConfigView>, n: int)
    requires
        distinct_ids(s),
        0 <= n <= s.len(),
    ensures
        ids_upto(s, n).finite(),
        ids_upto(s, n).len() == n,
    decreases n,
{
    if n == 0 {
        assert(ids_upto(s, 0) =~= Set::<Seq<char>>::empty());
    } else {
        lemma_ids_upto(s, n - 1);
        let last = s[n - 1].id;
        assert(!ids_upto(s, n - 1).contains(last));
        assert(ids_upto(s, n) =~= ids_upto(s, n - 1).insert(last));
    }
}

/// A registry without duplicates holds as many identifiers as entries.
pub proof fn lemma_entries_map_len(s: Seq<BridgeConfigView>)
    requires
        distinct_ids(s),
    ensures
        entries_map(s).dom().finite(),
        entries_map(s).dom().len() == s.len(),
{
    lemma_ids_upto(s, s.len() as int);
    assert(entries_map(s).dom() =~= ids_upto(s, s.len() as int));
}

/// What storing an entry does to the map: one insertion.
pub proof fn lemma_upsert_map(s: Seq<BridgeConfigView>, c: BridgeConfigView)
    requires
        distinct_ids(s),
    ensures
        distinct_ids(upsert(s, c)),
        entries_map(upsert(s, c)) == entries_map(s).insert(c.id, c),
{
    let t = upsert(s, c);
    if has_id(s, c.id) {
        let p = position_of(s, c.id);
        assert forall|id: Seq<char>| has_id(t, id) == (has_id(s, id) || id == c.id) by {
            if has_id(t, id) {
                let i = position_of(t, id);
                assert(s[i].id == id || i == p);
            }
            if has_id(s, id) {
                let i = position_of(s, id);
                assert(t[i].id == id);
            }
            if id == c.id {
                assert(t[p].id == id);
            }
        }
        assert forall|id: Seq<char>| has_id(t, id) implies t[position_of(t, id)] == (if id
            == c.id {
            c
        } else {
            s[position_of(s, id)]
        }) by {
            let i = position_of(t, id);
            if id == c.id {
                assert(t[p].id == id);
            } else {
                assert(s[i].id == id);
                let k = position_of(s, id);
                assert(t[k].id == id);
            }
        }
    } else {
        let n = s.len() as int;
        assert(t[n].id == c.id);
        assert forall|id: Seq<char>| has_id(t, id) == (has_id(s, id) || id == c.id) by {
            if has_id(t, id) {
                let i = position_of(t, id);
                if i < n {
                    assert(s[i].id == id);
                }
            }
            if has_id(s, id) {
                let i = position_of(s, id);
                assert(t[i].id == id);
            }
        }
        assert forall|id: Seq<char>| has_id(t, id) implies t[position_of(t, id)] == (if id
            == c.id {
            c
        } else {
            s[position_of(s, id)]
        }) by {
            let i = position_of(t, id);
            if id == c.id {
                assert(t[n].id == id);
            } else {
                assert(s[i].id == id);
                let k = position_of(s, id);
                assert(t[k].id == id);
            }
        }
    }
    assert(entries_map(t) =~= entries_map(s).insert(c.id, c));
}

/// What removing an entry does to the map: one removal.
pub proof fn lemma_without_map(s: Seq<BridgeConfigView>, id: Seq<char>)
    requires
        distinct_ids(s),
    ensures
        distinct_ids(without(s, id)),
        entries_map(without(s, id)) == entries_map(s).remove(id),
{
    let t = without(s, id);
    if has_id(s, id) {
        let p = position_of(s, id);
        assert forall|i: int, j: int|
            0 <= i < t.len() && 0 <= j < t.len() && #[trigger] t[i].id == #[trigger] t[j].id implies i
            == j by {
            let si = if i < p { i } else { i + 1 };
            let sj = if j < p { j } else { j + 1 };
            assert(s[si].id == s[sj].id);
        }
        assert forall|x: Seq<char>| has_id(t, x) == (has_id(s, x) && x != id) by {
            if has_id(t, x) {
                let i = position_of(t, x);
                let si = if i < p { i } else { i + 1 };
                assert(s[si].id == x);
            }
            if has_id(s, x) && x != id {
                let k = position_of(s, x);
                let ti = if k < p { k } else { k - 1 };
                assert(t[ti].id == x);
            }
        }
        assert forall|x: Seq<char>| has_id(t, x) implies t[position_of(t, x)] == s[position_of(
            s,
            x,
        )] by {
            let i = position_of(t, x);
            let si = if i < p { i } else { i + 1 };
            assert(s[si].id == x);
        }
        assert(entries_map(t) =~= entries_map(s).remove(id));
    } else {
        assert(entries_map(t) =~= entries_map(s).remove(id));
    }
}

/// `c` under the identifier `id`.
pub open spec fn with_id(c: BridgeConfigView, id: Seq<char>) -> BridgeConfigView {
    BridgeConfigView { id, ..c }
}

/// A fresh version-4 UUID from `uuid::Uuid::new_v4`, in the hyphenated
/// lower-case form that `Uuid` formats itself in: 36 characters. Which
/// UUID it is depends on the random source, so no more is stated. The
/// call stops the program where the operating system has no randomness
/// to give.
#[verifier::external_body]
pub(crate) fn random_uuid() -> (id: String)
    ensures
        id@.len() == 36,
{
    uuid::Uuid::new_v4().to_string()
}

/// Registry of bridge configurations, keyed by identifier.
///
/// Entries keep the order in which their identifiers were first stored.
pub struct BridgeRegistry {
    bridges: Vec<BridgeConfig>,
}

impl View for BridgeRegistry {
    type V = Map<Seq<char>, BridgeConfigView>;

    open spec fn view(&self) -> Map<Seq<char>, BridgeConfigView> {
        entries_map(self.entries())
    }
}

impl BridgeRegistry {
    /// The stored configurations, in storage order.
    pub closed spec fn entries(&self) -> Seq<BridgeConfigView> {
        self.bridges.deep_view()
    }

    /// No identifier is stored twice.
    pub open spec fn wf(&self) -> bool {
        distinct_ids(self.entries())
    }

    /// Creates an empty registry.
    pub fn new() -> (out: Self)
        ensures
            out.wf(),
            out.entries() == Seq::<BridgeConfigView>::empty(),
            out@ == Map::<Seq<char>, BridgeConfigView>::empty(),
    {
        let out = BridgeRegistry { bridges: Vec::new() };
        assert(out.entries() =~= Seq::<BridgeConfigView>::empty());
        assert(out@ =~= Map::<Seq<char>, BridgeConfigView>::empty());
        out
    }

    fn find(&self, id: &str) -> (at: Option<usize>)
        requires
            self.wf(),
        ensures
            match at {
                Some(i) => has_id(self.entries(), id@) && i == position_of(self.entries(), id@)
                    && i < self.bridges.len(),
                None => !has_id(self.entries(), id@),
            },
    {
        let mut i: usize = 0;
        while i < self.bridges.len()
            invariant
                i <= self.bridges.len(),
                self.wf(),
                forall|j: int| 0 <= j < i ==> (#[trigger] self.entries()[j]).id != id@,
            decreases self.bridges.len() - i,
        {
            if str_eq(self.bridges[i].id.as_str(), id) {
                assert(self.entries()[i as int].id == id@);
                return Some(i);
            }
            i += 1;
        }
        None
    }

    /// A point-in-time copy of every configuration.
    pub fn list(&self) -> (out: Vec<BridgeConfig>)
        requires
            self.wf(),
        ensures
            out.deep_view() == self.entries(),
            out.len() == self@.dom().len(),
    {
        let mut out: Vec<BridgeConfig> = Vec::new();
        let mut i: usize = 0;
        while i < self.bridges.len()
            invariant
                i <= self.bridges.len(),
                out.len() == i,
                forall|j: int| 0 <= j < i ==> out@[j]@ == self.bridges@[j]@,
            decreases self.bridges.len() - i,
        {
            out.push(self.bridges[i].clone());
            i += 1;
        }
        assert(out.deep_view() =~= self.entries());
        proof {
            lemma_entries_map_len(self.entries());
        }
        out
    }

    /// What is stored under `id`.
    pub open spec fn lookup(&self, id: Seq<char>) -> Option<BridgeConfigView> {
        if self@.dom().contains(id) {
            Some(self@[id])
        } else {
            None
        }
    }

    /// What is stored under `id` and usable for exchange.
    pub open spec fn lookup_enabled(&self, id: Seq<char>) -> Option<BridgeConfigView> {
        match self.lookup(id) {
            Some(c) => if c.enabled {
                Some(c)
            } else {
                None
            },
            None => None,
        }
    }

    /// The configuration stored under `id`.
    pub fn get(&self, id: &str) -> (out: Option<BridgeConfig>)
        requires
            self.wf(),
        ensures
            out.deep_view() == self.lookup(id@),
    {
        match self.find(id) {
            Some(i) => Some(self.bridges[i].clone()),
            None => None,
        }
    }

    /// The configuration stored under `id`, unless it is disabled.
    pub fn get_enabled(&self, id: &str) -> (out: Option<BridgeConfig>)
        requires
            self.wf(),
        ensures
            out.deep_view() == self.lookup_enabled(id@),
    {
        match self.get(id) {
            Some(c) => if c.enabled {
                Some(c)
            } else {
                None
            },
            None => None,
        }
    }

    /// Stores `config`, under `candidate` where it names no identifier.
    ///
    /// A configuration that names its identifier is stored under it, and
    /// replaces what was stored there. One that names none is stored under
    /// `candidate`, unless `candidate` is empty or already in use: an
    /// assigned identifier never displaces an entry.
    pub fn add_assigning(&mut self, config: BridgeConfig, candidate: String) -> (out: Result<
        String,
        Error,
    >)
        requires
            old(self).wf(),
        ensures
            final(self).wf(),
            config@.id.len() > 0 ==> out is Ok && out->Ok_0@ == config@.id,
            config@.id.len() == 0 ==> (out is Ok <==> candidate@.len() > 0 && !old(
                self,
            )@.dom().contains(candidate@)),
            config@.id.len() == 0 && out is Ok ==> out->Ok_0@ == candidate@,
            match out {
                Ok(id) => final(self).entries() == upsert(
                    old(self).entries(),
                    with_id(config@, id@),
                ) && final(self)@ == old(self)@.insert(id@, with_id(config@, id@)),
                Err(e) => final(self).entries() == old(self).entries() && e.carries(
                    ErrorKind::Internal,
                    "generated bridge id is not usable"@,
                ),
            },
    {
        let mut config = config;
        if config.id.as_str().is_empty() {
            if candidate.as_str().is_empty() || self.find(candidate.as_str()).is_some() {
                return Err(Error::Internal(String::from_str("generated bridge id is not usable")));
            }
            config.id = candidate;
        }
        let id = config.id.clone();
        proof {
            lemma_upsert_map(self.entries(), config@);
        }
        let ghost before = self.entries();
        match self.find(config.id.as_str()) {
            Some(i) => {
                self.bridges.set(i, config);
                assert(self.entries() =~= before.update(i as int, config@));
            },
            None => {
                self.bridges.push(config);
                assert(self.entries() =~= before.push(config@));
            },
        }
        Ok(id)
    }

    /// Stores `config`. Where it names no identifier, a fresh UUID is
    /// assigned to it; the identifier it is stored under is returned.
    ///
    /// Fails only where the assigned UUID, a text of 36 characters, is
    /// already in use; so never on an empty registry.
    pub fn add(&mut self, config: BridgeConfig) -> (out: Result<String, Error>)
        requires
            old(self).wf(),
        ensures
            final(self).wf(),
            config@.id.len() > 0 ==> out is Ok && out->Ok_0@ == config@.id,
            match out {
                Ok(id) => id@.len() > 0 && (config@.id.len() == 0 ==> !old(self)@.dom().contains(
                    id@,
                )) && final(self).entries() == upsert(old(self).entries(), with_id(config@, id@))
                    && final(self)@ == old(self)@.insert(id@, with_id(config@, id@)),
                Err(e) => config@.id.len() == 0 && final(self).entries() == old(self).entries()
                    && e.carries(ErrorKind::Internal, "generated bridge id is not usable"@),
            },
            out is Err ==> exists|id: Seq<char>|
                #[trigger] old(self)@.dom().contains(id) && id.len() == 36,
    {
        let candidate = random_uuid();
        self.add_assigning(config, candidate)
    }

    /// Replaces the configuration stored under `config.id`.
    ///
    /// Fails with `NotFound`, naming the identifier, where none is stored.
    pub fn update(&mut self, config: BridgeConfig) -> (out: Result<(), Error>)
        requires
            old(self).wf(),
        ensures
            final(self).wf(),
            match out {
                Ok(_) => old(self)@.dom().contains(config@.id) && final(self).entries() == upsert(
                    old(self).entries(),
                    config@,
                ) && final(self)@ == old(self)@.insert(config@.id, config@),
                Err(e) => !old(self)@.dom().contains(config@.id) && final(self).entries() == old(
                    self,
                ).entries() && e.carries(ErrorKind::NotFound, config@.id),
            },
    {
        match self.find(config.id.as_str()) {
            Some(i) => {
                proof {
                    lemma_upsert_map(self.entries(), config@);
                }
                let ghost before = self.entries();
                self.bridges.set(i, config);
                assert(self.entries() =~= before.update(i as int, config@));
                Ok(())
            },
            None => Err(Error::NotFound(config.id)),
        }
    }

    /// Removes the configuration stored under `id`.
    ///
    /// Fails with `NotFound`, naming the identifier, where none is stored.
    pub fn remove(&mut self, id: &str) -> (out: Result<(), Error>)
        requires
            old(self).wf(),
        ensures
            final(self).wf(),
            final(self).entries() == without(old(self).entries(), id@),
            final(self)@ == old(self)@.remove(id@),
            match out {
                Ok(_) => old(self)@.dom().contains(id@),
                Err(e) => !old(self)@.dom().contains(id@) && e.carries(ErrorKind::NotFound, id@),
            },
    {
        proof {
            lemma_without_map(self.entries(), id@);
        }
        match self.find(id) {
            Some(i) => {
                let ghost before = self.entries();
                self.bridges.remove(i);
                assert(self.entries() =~= before.remove(i as int));
                Ok(())
            },
            None => Err(Error::NotFound(String::from_str(id))),
        }
    }
}

impl Default for BridgeRegistry {
    fn default() -> (out: Self)
        ensures
            out.wf(),
            out@ == Map::<Seq<char>, BridgeConfigView>::empty(),
    {
        BridgeRegistry::new()
    }
}

/// Storing a configuration and then looking up its identifier gives that
/// configuration back, and every other identifier is left as it was.
pub proof fn law_add_then_get(before: BridgeRegistry, after: BridgeRegistry, config: BridgeConfigView)
    requires
        before.wf(),
        after.entries() == upsert(before.entries(), config),
    ensures
        after.wf(),
        after.lookup(config.id) == Some(config),
        forall|other: Seq<char>| other != config.id ==> after.lookup(other) == before.lookup(other),
{
    lemma_upsert_map(before.entries(), config);
}

/// After removing an identifier, looking it up gives nothing, and every
/// other identifier is left as it was.
pub proof fn law_remove_then_get(before: BridgeRegistry, after: BridgeRegistry, id: Seq<char>)
    requires
        before.wf(),
        after.entries() == without(before.entries(), id),
    ensures
        after.wf(),
        after.lookup(id) is None,
        forall|other: Seq<char>| other != id ==> after.lookup(other) == before.lookup(other),
{
    lemma_without_map(before.entries(), id);
}

/// The listing is as long as the number of identifiers in use.
pub proof fn law_list_len(registry: BridgeRegistry)
    requires
        registry.wf(),
    ensures
        registry@.dom().finite(),
        registry.entries().len() == registry@.dom().len(),
{
    lemma_entries_map_len(registry.entries());
}

/// A disabled bridge is found by identifier and yet not offered for
/// exchange; an enabled one is offered as it is stored.
pub proof fn law_enabled_gating(registry: BridgeRegistry, id: Seq<char>)
    requires
        registry.wf(),
    ensures
        registry.lookup_enabled(id) is Some <==> registry.lookup(id) is Some && registry.lookup(
            id,
        )->Some_0.enabled,
        registry.lookup_enabled(id) is Some ==> registry.lookup_enabled(id) == registry.lookup(id),
{
}

} // verus!
