//! The knowledge-base data model the pipeline works on.
//!
//! Entities, statements and references are held as plain values; the caller
//! that talks to the knowledge base fills them in. Each type has a
//! mathematical view (`EntityV`, `StatementV`, ...) over which every
//! contract of the library speaks.

use vstd::prelude::*;

verus! {

/// Datatype of a statement's property, as far as the pipeline cares:
/// external identifiers and media files are handled specially, everything
/// else is alike.
pub enum Datatype {
    ExternalId,
    CommonsMedia,
    Other,
}

/// A statement's value.
pub enum DataValue {
    /// A point in time, as `[+-]YYYY-MM-DD...` text plus a precision code
    /// (9 means year, 11 means day).
    Time { time: String, precision: u32 },
    StringValue(String),
    /// Text in a single language.
    Monolingual { language: String, text: String },
    /// A link to another entity, by id.
    EntityId(String),
    Quantity,
    Coordinate,
    Unknown,
}

/// One property/value pair, as used for main values and reference parts.
pub struct Snak {
    pub property: String,
    pub datatype: Datatype,
    pub value: Option<DataValue>,
}

/// One reference attached to a statement: a group of property/value pairs.
pub struct ReferenceGroup {
    pub snaks: Vec<Snak>,
}

/// One property/value assertion on an entity.
pub struct Statement {
    pub id: Option<String>,
    pub main: Snak,
    pub references: Vec<ReferenceGroup>,
}

/// A link from an entity to a page on one wiki.
pub struct Sitelink {
    pub site: String,
    pub title: String,
}

/// A label or alias in one language.
pub struct Term {
    pub language: String,
    pub value: String,
}

/// A knowledge-base record: statements, sitelinks, labels and aliases.
pub struct Entity {
    pub id: String,
    pub claims: Vec<Statement>,
    pub sitelinks: Vec<Sitelink>,
    pub labels: Vec<Term>,
    pub aliases: Vec<Term>,
}

/// A statement selected for reference discovery, with its provenance.
pub struct EntityStatement {
    pub entity: String,
    pub property: String,
    pub id: String,
    pub claim: Statement,
}

/// Mathematical view of a [`DataValue`].
#[verifier::ext_equal]
pub enum DataValueV {
    Time { time: Seq<char>, precision: u32 },
    StringValue(Seq<char>),
    Monolingual { language: Seq<char>, text: Seq<char> },
    EntityId(Seq<char>),
    Quantity,
    Coordinate,
    Unknown,
}

/// Mathematical view of a [`Snak`].
#[verifier::ext_equal]
pub struct SnakV {
    pub property: Seq<char>,
    pub datatype: Datatype,
    pub value: Option<DataValueV>,
}

/// Mathematical view of a [`Statement`]; each reference is the sequence of
/// its snaks.
#[verifier::ext_equal]
pub struct StatementV {
    pub id: Option<Seq<char>>,
    pub main: SnakV,
    pub references: Seq<Seq<SnakV>>,
}

/// Mathematical view of a [`Sitelink`].
#[verifier::ext_equal]
pub struct SitelinkV {
    pub site: Seq<char>,
    pub title: Seq<char>,
}

/// Mathematical view of a [`Term`].
#[verifier::ext_equal]
pub struct TermV {
    pub language: Seq<char>,
    pub value: Seq<char>,
}

/// Mathematical view of an [`Entity`].
#[verifier::ext_equal]
pub struct EntityV {
    pub id: Seq<char>,
    pub claims: Seq<StatementV>,
    pub sitelinks: Seq<SitelinkV>,
    pub labels: Seq<TermV>,
    pub aliases: Seq<TermV>,
}

/// Mathematical view of an [`EntityStatement`].
#[verifier::ext_equal]
pub struct EntityStatementV {
    pub entity: Seq<char>,
    pub property: Seq<char>,
    pub id: Seq<char>,
    pub claim: StatementV,
}

/// Views of a sequence of snaks.
pub open spec fn snak_views(s: Seq<Snak>) -> Seq<SnakV> {
    s.map_values(|k: Snak| k@)
}

/// Views of a sequence of reference groups, each as its snak views.
pub open spec fn group_views(s: Seq<ReferenceGroup>) -> Seq<Seq<SnakV>> {
    s.map_values(|g: ReferenceGroup| snak_views(g.snaks@))
}

impl View for DataValue {
    type V = DataValueV;

    open spec fn view(&self) -> DataValueV {
        match self {
            DataValue::Time { time, precision } => DataValueV::Time {
                time: time@,
                precision: *precision,
            },
            DataValue::StringValue(s) => DataValueV::StringValue(s@),
            DataValue::Monolingual { language, text } => DataValueV::Monolingual {
                language: language@,
                text: text@,
            },
            DataValue::EntityId(e) => DataValueV::EntityId(e@),
            DataValue::Quantity => DataValueV::Quantity,
            DataValue::Coordinate => DataValueV::Coordinate,
            DataValue::Unknown => DataValueV::Unknown,
        }
    }
}

impl View for Snak {
    type V = SnakV;

    open spec fn view(&self) -> SnakV {
        SnakV {
            property: self.property@,
            datatype: self.datatype,
            value: match self.value {
                Option::Some(v) => Option::Some(v@),
                Option::None => Option::None,
            },
        }
    }
}

impl View for Statement {
    type V = StatementV;

    open spec fn view(&self) -> StatementV {
        StatementV {
            id: match self.id {
                Option::Some(s) => Option::Some(s@),
                Option::None => Option::None,
            },
            main: self.main@,
            references: group_views(self.references@),
        }
    }
}

impl View for Sitelink {
    type V = SitelinkV;

    open spec fn view(&self) -> SitelinkV {
        SitelinkV { site: self.site@, title: self.title@ }
    }
}

impl View for Term {
    type V = TermV;

    open spec fn view(&self) -> TermV {
        TermV { language: self.language@, value: self.value@ }
    }
}

impl View for Entity {
    type V = EntityV;

    open spec fn view(&self) -> EntityV {
        EntityV {
            id: self.id@,
            claims: self.claims@.map_values(|c: Statement| c@),
            sitelinks: self.sitelinks@.map_values(|s: Sitelink| s@),
            labels: self.labels@.map_values(|t: Term| t@),
            aliases: self.aliases@.map_values(|t: Term| t@),
        }
    }
}

impl View for EntityStatement {
    type V = EntityStatementV;

    open spec fn view(&self) -> EntityStatementV {
        EntityStatementV {
            entity: self.entity@,
            property: self.property@,
            id: self.id@,
            claim: self.claim@,
        }
    }
}

/// Whether a claim asserts `property` with the linked entity `target`.
pub open spec fn is_entity_claim(s: StatementV, p: Seq<char>, t: Seq<char>) -> bool {
    s.main.property == p && match s.main.value {
        Option::Some(DataValueV::EntityId(e)) => e == t,
        _ => false,
    }
}

/// The string value of a claim's main snak, if its property is `p`.
pub open spec fn claim_string_value(s: StatementV, p: Seq<char>) -> Seq<Seq<char>> {
    if s.main.property == p {
        match s.main.value {
            Option::Some(DataValueV::StringValue(v)) => seq![v],
            _ => Seq::<Seq<char>>::empty(),
        }
    } else {
        Seq::<Seq<char>>::empty()
    }
}

/// All main-snak string values of claims with property `p`, in claim order.
pub open spec fn spec_string_values(claims: Seq<StatementV>, p: Seq<char>) -> Seq<Seq<char>>
    decreases claims.len(),
{
    if claims.len() == 0 {
        Seq::<Seq<char>>::empty()
    } else {
        claim_string_value(claims[0], p) + spec_string_values(claims.skip(1), p)
    }
}

/// The first claim with property `p`, if any.
pub open spec fn spec_first_claim(claims: Seq<StatementV>, p: Seq<char>) -> Option<
    StatementV,
>
    decreases claims.len(),
{
    if claims.len() == 0 {
        Option::None
    } else if claims[0].main.property == p {
        Option::Some(claims[0])
    } else {
        spec_first_claim(claims.skip(1), p)
    }
}

/// The value of the first term with language `lang`, if any.
pub open spec fn spec_first_term(terms: Seq<TermV>, lang: Seq<char>) -> Option<Seq<char>>
    decreases terms.len(),
{
    if terms.len() == 0 {
        Option::None
    } else if terms[0].language == lang {
        Option::Some(terms[0].value)
    } else {
        spec_first_term(terms.skip(1), lang)
    }
}

/// The values of all terms with language `lang`, in order.
pub open spec fn spec_term_values(terms: Seq<TermV>, lang: Seq<char>) -> Seq<Seq<char>>
    decreases terms.len(),
{
    if terms.len() == 0 {
        Seq::<Seq<char>>::empty()
    } else {
        let head = if terms[0].language == lang {
            seq![terms[0].value]
        } else {
            Seq::<Seq<char>>::empty()
        };
        head + spec_term_values(terms.skip(1), lang)
    }
}

/// The first entity with the given id, if any.
pub open spec fn spec_lookup(entities: Seq<EntityV>, id: Seq<char>) -> Option<EntityV>
    decreases entities.len(),
{
    if entities.len() == 0 {
        Option::None
    } else if entities[0].id == id {
        Option::Some(entities[0])
    } else {
        spec_lookup(entities.skip(1), id)
    }
}

/// Deep view of a vector of entities.
pub open spec fn entities_view(entities: Seq<Entity>) -> Seq<EntityV> {
    entities.map_values(|e: Entity| e@)
}

impl Entity {
    /// Main-snak string values of all claims with the given property.
    pub fn string_values_for_property(&self, property: &str) -> (r: Vec<String>)
        ensures
            r@.map_values(|s: String| s@) == spec_string_values(self@.claims, property@),
    {
        let p = property.to_owned();
        let n = self.claims.len();
        let ghost cv = self@.claims;
        let mut out: Vec<String> = Vec::new();
        proof {
            assert(cv.skip(0) =~= cv);
            assert(Seq::<Seq<char>>::empty() + spec_string_values(cv, property@)
                =~= spec_string_values(cv, property@));
            assert(out@.map_values(|s: String| s@) =~= Seq::<Seq<char>>::empty());
        }
        let mut i: usize = 0;
        while i < n
            invariant
                n == cv.len(),
                cv == self@.claims,
                n == self.claims@.len(),
                i <= n,
                p@ == property@,
                spec_string_values(cv, property@) == out@.map_values(|s: String| s@)
                    + spec_string_values(cv.skip(i as int), property@),
            decreases n - i,
        {
            let ghost pre = out@;
            let ghost rest = cv.skip(i as int);
            assert(rest[0] == cv[i as int]);
            assert(cv[i as int] == self.claims@[i as int]@);
            let c = &self.claims[i];
            if c.main.property.eq(&p) {
                match &c.main.value {
                    Option::Some(DataValue::StringValue(v)) => {
                        out.push(v.clone());
                        proof {
                            assert(out@ =~= pre + seq![*v]);
                            assert(out@.map_values(|s: String| s@) =~= pre.map_values(
                                |s: String| s@,
                            ) + seq![v@]);
                        }
                    },
                    _ => {},
                }
            }
            i += 1;
            proof {
                assert(rest.skip(1) =~= cv.skip(i as int));
                let tail = spec_string_values(cv.skip(i as int), property@);
                assert(spec_string_values(rest, property@) == claim_string_value(
                    rest[0],
                    property@,
                ) + tail);
                assert(pre.map_values(|s: String| s@) + (claim_string_value(
                    rest[0],
                    property@,
                ) + tail) =~= out@.map_values(|s: String| s@) + tail);
            }
        }
        proof {
            assert(cv.skip(n as int) =~= Seq::<StatementV>::empty());
            assert(out@.map_values(|s: String| s@) + Seq::<Seq<char>>::empty()
                =~= out@.map_values(|s: String| s@));
        }
        out
    }

    /// Whether some claim asserts `property` with the linked entity `target`.
    pub fn has_target_entity(&self, property: &str, target: &str) -> (r: bool)
        ensures
            r == exists|i: int|
                0 <= i < self@.claims.len() && is_entity_claim(
                    self@.claims[i],
                    property@,
                    target@,
                ),
    {
        let p = property.to_owned();
        let t = target.to_owned();
        let n = self.claims.len();
        let ghost cv = self@.claims;
        let mut i: usize = 0;
        while i < n
            invariant
                n == cv.len(),
                cv == self@.claims,
                n == self.claims@.len(),
                i <= n,
                p@ == property@,
                t@ == target@,
                forall|k: int| 0 <= k < i ==> !is_entity_claim(cv[k], property@, target@),
            decreases n - i,
        {
            assert(cv[i as int] == self.claims@[i as int]@);
            let c = &self.claims[i];
            let mut hit = false;
            if c.main.property.eq(&p) {
                match &c.main.value {
                    Option::Some(DataValue::EntityId(e)) => {
                        if e.eq(&t) {
                            hit = true;
                        }
                    },
                    _ => {},
                }
            }
            if hit {
                assert(is_entity_claim(cv[i as int], property@, target@));
                return true;
            }
            proof {
                assert(!is_entity_claim(cv[i as int], property@, target@));
            }
            i += 1;
        }
        false
    }

    /// The linked-entity value of the first claim with the given property,
    /// if that claim's value is an entity link.
    pub fn first_claim_entity_value(&self, property: &str) -> (r: Option<String>)
        ensures
            crate::order::opt_view(r) == (match spec_first_claim(self@.claims, property@) {
                Option::Some(c) => match c.main.value {
                    Option::Some(DataValueV::EntityId(e)) => Option::Some(e),
                    _ => Option::None,
                },
                Option::None => Option::None,
            }),
    {
        let p = property.to_owned();
        let n = self.claims.len();
        let ghost cv = self@.claims;
        let mut i: usize = 0;
        proof {
            assert(cv.skip(0) =~= cv);
        }
        while i < n
            invariant
                n == cv.len(),
                cv == self@.claims,
                n == self.claims@.len(),
                i <= n,
                p@ == property@,
                spec_first_claim(cv, property@) == spec_first_claim(
                    cv.skip(i as int),
                    property@,
                ),
            decreases n - i,
        {
            let ghost rest = cv.skip(i as int);
            assert(rest[0] == cv[i as int]);
            assert(cv[i as int] == self.claims@[i as int]@);
            let c = &self.claims[i];
            if c.main.property.eq(&p) {
                match &c.main.value {
                    Option::Some(DataValue::EntityId(e)) => {
                        return Option::Some(e.clone());
                    },
                    _ => {
                        return Option::None;
                    },
                }
            }
            i += 1;
            proof {
                assert(rest.skip(1) =~= cv.skip(i as int));
            }
        }
        proof {
            assert(cv.skip(n as int) =~= Seq::<StatementV>::empty());
        }
        Option::None
    }

    /// The label value for the given language, if any.
    pub fn label_in(&self, language: &str) -> (r: Option<String>)
        ensures
            crate::order::opt_view(r) == spec_first_term(self@.labels, language@),
    {
        first_term_value(&self.labels, language)
    }

    /// All alias values for the given language, in order.
    pub fn aliases_in(&self, language: &str) -> (r: Vec<String>)
        ensures
            r@.map_values(|s: String| s@) == spec_term_values(self@.aliases, language@),
    {
        term_values(&self.aliases, language)
    }
}

/// The value of the first term in the given language.
fn first_term_value(terms: &Vec<Term>, language: &str) -> (r: Option<String>)
    ensures
        crate::order::opt_view(r) == spec_first_term(
            terms@.map_values(|t: Term| t@),
            language@,
        ),
{
    let p = language.to_owned();
    let n = terms.len();
    let ghost tv = terms@.map_values(|t: Term| t@);
    let mut i: usize = 0;
    proof {
        assert(tv.skip(0) =~= tv);
    }
    while i < n
        invariant
            n == tv.len(),
            tv == terms@.map_values(|t: Term| t@),
            n == terms@.len(),
            i <= n,
            p@ == language@,
            spec_first_term(tv, language@) == spec_first_term(tv.skip(i as int), language@),
        decreases n - i,
    {
        let ghost rest = tv.skip(i as int);
        assert(rest[0] == tv[i as int]);
        assert(tv[i as int] == terms@[i as int]@);
        let t = &terms[i];
        if t.language.eq(&p) {
            return Option::Some(t.value.clone());
        }
        i += 1;
        proof {
            assert(rest.skip(1) =~= tv.skip(i as int));
        }
    }
    proof {
        assert(tv.skip(n as int) =~= Seq::<TermV>::empty());
    }
    Option::None
}

/// The values of all terms in the given language.
fn term_values(terms: &Vec<Term>, language: &str) -> (r: Vec<String>)
    ensures
        r@.map_values(|s: String| s@) == spec_term_values(
            terms@.map_values(|t: Term| t@),
            language@,
        ),
{
    let p = language.to_owned();
    let n = terms.len();
    let ghost tv = terms@.map_values(|t: Term| t@);
    let mut out: Vec<String> = Vec::new();
    proof {
        assert(tv.skip(0) =~= tv);
        assert(out@.map_values(|s: String| s@) =~= Seq::<Seq<char>>::empty());
        assert(Seq::<Seq<char>>::empty() + spec_term_values(tv, language@)
            =~= spec_term_values(tv, language@));
    }
    let mut i: usize = 0;
    while i < n
        invariant
            n == tv.len(),
            tv == terms@.map_values(|t: Term| t@),
            n == terms@.len(),
            i <= n,
            p@ == language@,
            spec_term_values(tv, language@) == out@.map_values(|s: String| s@)
                + spec_term_values(tv.skip(i as int), language@),
        decreases n - i,
    {
        let ghost pre = out@;
        let ghost rest = tv.skip(i as int);
        assert(rest[0] == tv[i as int]);
        assert(tv[i as int] == terms@[i as int]@);
        let t = &terms[i];
        if t.language.eq(&p) {
            out.push(t.value.clone());
            proof {
                assert(out@ =~= pre + seq![t.value]);
                assert(out@.map_values(|s: String| s@) =~= pre.map_values(|s: String| s@)
                    + seq![t.value@]);
            }
        }
        i += 1;
        proof {
            assert(rest.skip(1) =~= tv.skip(i as int));
            let tail = spec_term_values(tv.skip(i as int), language@);
            let head = if rest[0].language == language@ {
                seq![rest[0].value]
            } else {
                Seq::<Seq<char>>::empty()
            };
            assert(spec_term_values(rest, language@) == head + tail);
            assert(pre.map_values(|s: String| s@) + (head + tail) =~= out@.map_values(
                |s: String| s@,
            ) + tail);
        }
    }
    proof {
        assert(tv.skip(n as int) =~= Seq::<TermV>::empty());
        assert(out@.map_values(|s: String| s@) + Seq::<Seq<char>>::empty() =~= out@.map_values(
            |s: String| s@,
        ));
    }
    out
}

/// The first entity in `entities` with the given id.
pub fn find_entity<'a>(entities: &'a Vec<Entity>, id: &str) -> (r: Option<&'a Entity>)
    ensures
        match r {
            Option::Some(e) => spec_lookup(entities_view(entities@), id@) == Option::Some(
                e@,
            ),
            Option::None => spec_lookup(entities_view(entities@), id@) is None,
        },
{
    let p = id.to_owned();
    let n = entities.len();
    let ghost ev = entities_view(entities@);
    let mut i: usize = 0;
    proof {
        assert(ev.skip(0) =~= ev);
    }
    while i < n
        invariant
            n == ev.len(),
            ev == entities_view(entities@),
            n == entities@.len(),
            i <= n,
            p@ == id@,
            spec_lookup(ev, id@) == spec_lookup(ev.skip(i as int), id@),
        decreases n - i,
    {
        let ghost rest = ev.skip(i as int);
        assert(rest[0] == ev[i as int]);
        assert(ev[i as int] == entities@[i as int]@);
        if entities[i].id.eq(&p) {
            return Option::Some(&entities[i]);
        }
        i += 1;
        proof {
            assert(rest.skip(1) =~= ev.skip(i as int));
        }
    }
    proof {
        assert(ev.skip(n as int) =~= Seq::<EntityV>::empty());
    }
    Option::None
}

/// Copy of an optional string.
pub fn clone_opt_string(o: &Option<String>) -> (r: Option<String>)
    ensures
        r == *o,
{
    match o {
        Option::Some(s) => Option::Some(s.clone()),
        Option::None => Option::None,
    }
}

/// Copy of a datatype tag.
pub fn clone_datatype(d: &Datatype) -> (r: Datatype)
    ensures
        r == *d,
{
    match d {
        Datatype::ExternalId => Datatype::ExternalId,
        Datatype::CommonsMedia => Datatype::CommonsMedia,
        Datatype::Other => Datatype::Other,
    }
}

/// Copy of a data value.
pub fn clone_data_value(v: &DataValue) -> (r: DataValue)
    ensures
        r@ == v@,
{
    match v {
        DataValue::Time { time, precision } => DataValue::Time {
            time: time.clone(),
            precision: *precision,
        },
        DataValue::StringValue(s) => DataValue::StringValue(s.clone()),
        DataValue::Monolingual { language, text } => DataValue::Monolingual {
            language: language.clone(),
            text: text.clone(),
        },
        DataValue::EntityId(e) => DataValue::EntityId(e.clone()),
        DataValue::Quantity => DataValue::Quantity,
        DataValue::Coordinate => DataValue::Coordinate,
        DataValue::Unknown => DataValue::Unknown,
    }
}

/// Copy of a snak.
pub fn clone_snak(s: &Snak) -> (r: Snak)
    ensures
        r@ == s@,
{
    let r = Snak {
        property: s.property.clone(),
        datatype: clone_datatype(&s.datatype),
        value: match &s.value {
            Option::Some(v) => Option::Some(clone_data_value(v)),
            Option::None => Option::None,
        },
    };
    proof {
        assert(r@ =~~= s@);
    }
    r
}

/// Copy of a statement, references included.
pub fn clone_statement(s: &Statement) -> (r: Statement)
    ensures
        r@ == s@,
{
    let mut references: Vec<ReferenceGroup> = Vec::new();
    let n = s.references.len();
    let ghost rv = s@.references;
    let mut i: usize = 0;
    proof {
        assert(group_views(references@) =~= rv.subrange(0, 0));
    }
    while i < n
        invariant
            n == rv.len(),
            rv == s@.references,
            n == s.references@.len(),
            i <= n,
            group_views(references@) == rv.subrange(0, i as int),
        decreases n - i,
    {
        let ghost pre = references@;
        assert(rv[i as int] == snak_views(s.references@[i as int].snaks@));
        let g = &s.references[i];
        let mut snaks: Vec<Snak> = Vec::new();
        let m = g.snaks.len();
        let mut j: usize = 0;
        proof {
            assert(snak_views(snaks@) =~= snak_views(g.snaks@).subrange(0, 0));
        }
        while j < m
            invariant
                m == g.snaks@.len(),
                j <= m,
                snak_views(snaks@) == snak_views(g.snaks@).subrange(0, j as int),
            decreases m - j,
        {
            let ghost prev = snaks@;
            let c = clone_snak(&g.snaks[j]);
            proof {
                assert(c@ == g.snaks@[j as int]@);
            }
            snaks.push(c);
            j += 1;
            proof {
                assert(snaks@ =~= prev.push(c));
                assert(snak_views(g.snaks@).len() == m);
                assert(snak_views(prev).len() == prev.len());
                assert(snak_views(prev) == snak_views(g.snaks@).subrange(0, (j - 1) as int));
                assert(prev.len() == j - 1);
                assert(snak_views(snaks@).len() == j);
                assert forall|k: int| 0 <= k < j implies snak_views(snaks@)[k]
                    == snak_views(g.snaks@).subrange(0, j as int)[k] by {
                    assert(snak_views(snaks@)[k] == snaks@[k]@);
                    assert(snak_views(g.snaks@)[k] == g.snaks@[k]@);
                    if k < j - 1 {
                        assert(snaks@[k] == prev[k]);
                        assert(snak_views(prev)[k] == prev[k]@);
                        assert(snak_views(prev)[k] == snak_views(g.snaks@).subrange(
                            0,
                            (j - 1) as int,
                        )[k]);
                    } else {
                        assert(snaks@[k] == c);
                    }
                }
                assert(snak_views(snaks@) =~= snak_views(g.snaks@).subrange(0, j as int));
            }
        }
        proof {
            assert(snak_views(g.snaks@).subrange(0, m as int) =~= snak_views(g.snaks@));
        }
        let ng = ReferenceGroup { snaks };
        proof {
            assert(snak_views(ng.snaks@) == snak_views(g.snaks@));
        }
        references.push(ng);
        i += 1;
        proof {
            assert(references@ =~= pre.push(ng));
            assert(group_views(pre).len() == pre.len());
            assert(group_views(pre) == rv.subrange(0, (i - 1) as int));
            assert(pre.len() == i - 1);
            assert(group_views(references@).len() == i);
            assert forall|k: int| 0 <= k < i implies group_views(references@)[k]
                == rv.subrange(0, i as int)[k] by {
                assert(group_views(references@)[k] == snak_views(references@[k].snaks@));
                if k < i - 1 {
                    assert(references@[k] == pre[k]);
                    assert(group_views(pre)[k] == snak_views(pre[k].snaks@));
                    assert(group_views(pre)[k] == rv.subrange(0, (i - 1) as int)[k]);
                } else {
                    assert(references@[k] == ng);
                }
            }
            assert(group_views(references@) =~= rv.subrange(0, i as int));
        }
    }
    proof {
        assert(rv.subrange(0, n as int) =~= rv);
    }
    let r = Statement {
        id: clone_opt_string(&s.id),
        main: clone_snak(&s.main),
        references,
    };
    proof {
        assert(r@ =~~= s@);
    }
    r
}

/// Copy of an entity statement.
pub fn clone_entity_statement(s: &EntityStatement) -> (r: EntityStatement)
    ensures
        r@ == s@,
{
    let r = EntityStatement {
        entity: s.entity.clone(),
        property: s.property.clone(),
        id: s.id.clone(),
        claim: clone_statement(&s.claim),
    };
    proof {
        assert(r@ =~~= s@);
    }
    r
}

} // verus!
