//! Projection of a bean document onto a sequence of frames.
use vstd::prelude::*;
use crate::bean::{Java, JavaObject, JavaVoid, VoidIndex, VoidValue};
use crate::trame::{default_frame, Timestamp, Trame, TrameModel};

verus! {

/// The frame field that a property name is applied to.
#[derive(Clone, Copy, Debug, PartialEq, Eq, Structural)]
pub enum PropertyKind {
    FnId,
    LogicalCanal,
    Segment,
    Heure,
    Longueur,
    SubType,
    Ignored,
}

/// A recognised property whose entry lacks the value kind that it must carry.
#[derive(Clone, Copy, Debug, PartialEq, Eq, Structural)]
pub enum TransformError {
    /// A `longueur` entry without an integer value, in the object at that index.
    MissingLength { object: usize },
    /// A `subType` entry without a byte value, in the object at that index.
    MissingSubType { object: usize },
}

pub open spec fn property_kind(name: Seq<char>) -> PropertyKind {
    if name == "FN"@ {
        PropertyKind::FnId
    } else if name == "canal_Logique"@ {
        PropertyKind::LogicalCanal
    } else if name == "contenuSegment"@ {
        PropertyKind::Segment
    } else if name == "heure"@ {
        PropertyKind::Heure
    } else if name == "longueur"@ {
        PropertyKind::Longueur
    } else if name == "subType"@ {
        PropertyKind::SubType
    } else {
        PropertyKind::Ignored
    }
}

/// The payload bytes of an array, in document order, each read as unsigned.
pub open spec fn array_bytes(items: Seq<VoidIndex>) -> Seq<u8> {
    items.map_values(|x: VoidIndex| x.byte as u8)
}

/// The frame after one property entry of the object at index `object` is applied.
pub open spec fn applied(f: TrameModel, v: JavaVoid, object: int) -> Result<TrameModel, TransformError> {
    match property_kind(v.property@) {
        PropertyKind::FnId => Ok(
            TrameModel {
                fn_id: match v.value {
                    VoidValue::Long(l) => Some(l),
                    _ => None,
                },
                ..f
            },
        ),
        PropertyKind::LogicalCanal => match v.value {
            VoidValue::Int(t) => Ok(TrameModel { logical_canal: t, ..f }),
            _ => Ok(f),
        },
        PropertyKind::Segment => match v.value {
            VoidValue::Array(a) => match a.voids {
                Some(items) => Ok(
                    TrameModel { contenu_segment: f.contenu_segment + array_bytes(items@), ..f },
                ),
                None => Ok(f),
            },
            _ => Ok(f),
        },
        PropertyKind::Heure => match v.value {
            VoidValue::Date(d) => match d.long {
                Some(l) => Ok(TrameModel { date: Timestamp { millis: l }, ..f }),
                None => Ok(f),
            },
            _ => Ok(f),
        },
        PropertyKind::Longueur => match v.value {
            VoidValue::Int(n) => Ok(TrameModel { length: n, ..f }),
            _ => Err(TransformError::MissingLength { object: object as usize }),
        },
        PropertyKind::SubType => match v.value {
            VoidValue::Byte(b) => Ok(TrameModel { sub_type: b, ..f }),
            _ => Err(TransformError::MissingSubType { object: object as usize }),
        },
        PropertyKind::Ignored => Ok(f),
    }
}

/// The entries applied one after another, in order; the first failure stops it.
pub open spec fn applied_all(f: TrameModel, voids: Seq<JavaVoid>, object: int) -> Result<
    TrameModel,
    TransformError,
>
    decreases voids.len(),
{
    if voids.len() == 0 {
        Ok(f)
    } else {
        match applied_all(f, voids.drop_last(), object) {
            Ok(g) => applied(g, voids.last(), object),
            Err(e) => Err(e),
        }
    }
}

/// The frame of the object at index `object`.
pub open spec fn frame_of(obj: JavaObject, object: int, now: Timestamp) -> Result<
    TrameModel,
    TransformError,
> {
    applied_all(default_frame(now), obj.voids@, object)
}

/// The frames of a sequence of objects, one each and in order, or the first failure.
pub open spec fn frames_of(objs: Seq<JavaObject>, now: Timestamp) -> Result<
    Seq<TrameModel>,
    TransformError,
>
    decreases objs.len(),
{
    if objs.len() == 0 {
        Ok(Seq::empty())
    } else {
        match frames_of(objs.drop_last(), now) {
            Ok(s) => match frame_of(objs.last(), objs.len() - 1, now) {
                Ok(t) => Ok(s.push(t)),
                Err(e) => Err(e),
            },
            Err(e) => Err(e),
        }
    }
}

/// The models of a sequence of frames.
pub open spec fn models(v: Seq<Trame>) -> Seq<TrameModel> {
    v.map_values(|t: Trame| t@)
}

/// Whether two strings hold the same characters.
fn same_chars(a: &str, b: &str) -> (r: bool)
    ensures
        r == (a@ == b@),
{
    let n = a.unicode_len();
    if n != b.unicode_len() {
        return false;
    }
    let mut i: usize = 0;
    while i < n
        invariant
            n == a@.len(),
            n == b@.len(),
            i <= n,
            a@.subrange(0, i as int) == b@.subrange(0, i as int),
        decreases n - i,
    {
        if a.get_char(i) != b.get_char(i) {
            return false;
        }
        assert(a@.subrange(0, i + 1) == a@.subrange(0, i as int).push(a@[i as int]));
        assert(b@.subrange(0, i + 1) == b@.subrange(0, i as int).push(b@[i as int]));
        i = i + 1;
    }
    assert(a@ == a@.subrange(0, n as int));
    assert(b@ == b@.subrange(0, n as int));
    true
}

/// The frame field that a property name is applied to.
pub fn property_kind_of(name: &String) -> (r: PropertyKind)
    ensures
        r == property_kind(name@),
{
    let s = name.as_str();
    if same_chars(s, "FN") {
        PropertyKind::FnId
    } else if same_chars(s, "canal_Logique") {
        PropertyKind::LogicalCanal
    } else if same_chars(s, "contenuSegment") {
        PropertyKind::Segment
    } else if same_chars(s, "heure") {
        PropertyKind::Heure
    } else if same_chars(s, "longueur") {
        PropertyKind::Longueur
    } else if same_chars(s, "subType") {
        PropertyKind::SubType
    } else {
        PropertyKind::Ignored
    }
}

/// Applies one property entry of the object at index `object` to `trame`.
/// On failure `trame` may be partly changed; callers then drop it.
pub fn apply_property(trame: &mut Trame, void: &JavaVoid, object: usize) -> (r: Result<
    (),
    TransformError,
>)
    ensures
        match applied(old(trame)@, *void, object as int) {
            Ok(m) => r is Ok && final(trame)@ == m,
            Err(e) => r == Err::<(), TransformError>(e),
        },
{
    match property_kind_of(&void.property) {
        PropertyKind::FnId => {
            trame.fn_id = match &void.value {
                VoidValue::Long(l) => Some(*l),
                _ => None,
            };
        },
        PropertyKind::LogicalCanal => {
            if let VoidValue::Int(t) = &void.value {
                trame.logical_canal = *t;
            }
        },
        PropertyKind::Segment => {
            if let VoidValue::Array(a) = &void.value {
                if let Some(items) = &a.voids {
                    let ghost before = trame.contenu_segment@;
                    let mut j: usize = 0;
                    while j < items.len()
                        invariant
                            j <= items@.len(),
                            trame.contenu_segment@ == before + array_bytes(
                                items@.subrange(0, j as int),
                            ),
                            trame.fn_id == old(trame).fn_id,
                            trame.logical_canal == old(trame).logical_canal,
                            trame.freq == old(trame).freq,
                            trame.date == old(trame).date,
                            trame.localisation == old(trame).localisation,
                            trame.length == old(trame).length,
                            trame.sub_type == old(trame).sub_type,
                            before == old(trame).contenu_segment@,
                        decreases items@.len() - j,
                    {
                        assert(items@.subrange(0, j + 1) == items@.subrange(0, j as int).push(
                            items@[j as int],
                        ));
                        assert(array_bytes(items@.subrange(0, j + 1)) == array_bytes(
                            items@.subrange(0, j as int),
                        ).push(items@[j as int].byte as u8));
                        trame.contenu_segment.push(items[j].byte as u8);
                        j = j + 1;
                    }
                    assert(items@.subrange(0, items@.len() as int) == items@);
                }
            }
        },
        PropertyKind::Heure => {
            if let VoidValue::Date(d) = &void.value {
                if let Some(l) = d.long {
                    trame.date = Timestamp { millis: l };
                }
            }
        },
        PropertyKind::Longueur => {
            match &void.value {
                VoidValue::Int(n) => {
                    trame.length = *n;
                },
                _ => {
                    return Err(TransformError::MissingLength { object });
                },
            }
        },
        PropertyKind::SubType => {
            match &void.value {
                VoidValue::Byte(b) => {
                    trame.sub_type = *b;
                },
                _ => {
                    return Err(TransformError::MissingSubType { object });
                },
            }
        },
        PropertyKind::Ignored => {},
    }
    Ok(())
}

/// The frame of one object: defaults dated `now`, then each entry in order.
pub fn object_to_trame(obj: &JavaObject, object: usize, now: Timestamp) -> (r: Result<
    Trame,
    TransformError,
>)
    ensures
        match frame_of(*obj, object as int, now) {
            Ok(m) => r matches Ok(t) && t@ == m,
            Err(e) => r matches Err(e2) && e2 == e,
        },
{
    let mut trame = Trame::new(now);
    let mut i: usize = 0;
    while i < obj.voids.len()
        invariant
            i <= obj.voids@.len(),
            applied_all(default_frame(now), obj.voids@.subrange(0, i as int), object as int) == Ok::<
                TrameModel,
                TransformError,
            >(trame@),
        decreases obj.voids@.len() - i,
    {
        let ghost prefix = obj.voids@.subrange(0, i + 1);
        assert(prefix.drop_last() == obj.voids@.subrange(0, i as int));
        assert(prefix.last() == obj.voids@[i as int]);
        match apply_property(&mut trame, &obj.voids[i], object) {
            Ok(()) => {},
            Err(e) => {
                proof {
                    assert(applied_all(default_frame(now), prefix, object as int) == Err::<
                        TrameModel,
                        TransformError,
                    >(e));
                    lemma_failure_persists(default_frame(now), obj.voids@, i + 1, object as int);
                }
                return Err(e);
            },
        }
        i = i + 1;
    }
    assert(obj.voids@.subrange(0, obj.voids@.len() as int) == obj.voids@);
    Ok(trame)
}

/// Once a prefix of the entries fails, every longer prefix fails the same way.
proof fn lemma_failure_persists(f: TrameModel, voids: Seq<JavaVoid>, k: int, object: int)
    requires
        0 <= k <= voids.len(),
        applied_all(f, voids.subrange(0, k), object) is Err,
    ensures
        applied_all(f, voids, object) == applied_all(f, voids.subrange(0, k), object),
    decreases voids.len() - k,
{
    if k < voids.len() {
        let next = voids.subrange(0, k + 1);
        assert(next.drop_last() == voids.subrange(0, k));
        lemma_failure_persists(f, voids, k + 1, object);
    } else {
        assert(voids.subrange(0, k) == voids);
    }
}

/// Whether an executed transformation gave the expected frames or failure.
pub open spec fn outcome_is(
    r: Result<Vec<Trame>, TransformError>,
    expected: Result<Seq<TrameModel>, TransformError>,
) -> bool {
    match r {
        Ok(v) => expected == Ok::<Seq<TrameModel>, TransformError>(models(v@)),
        Err(e) => expected == Err::<Seq<TrameModel>, TransformError>(e),
    }
}

/// The frames of a document, with `now` as the date of frames that give none.
pub fn transform_with_now(doc: &Java, now: Timestamp) -> (r: Result<Vec<Trame>, TransformError>)
    ensures
        outcome_is(r, frames_of(doc.objects@, now)),
        r matches Ok(v) ==> v@.len() == doc.objects@.len(),
{
    let mut trames: Vec<Trame> = Vec::new();
    let mut i: usize = 0;
    assert(doc.objects@.subrange(0, 0) == Seq::<JavaObject>::empty());
    assert(models(trames@) == Seq::<TrameModel>::empty());
    while i < doc.objects.len()
        invariant
            i <= doc.objects@.len(),
            frames_of(doc.objects@.subrange(0, i as int), now) == Ok::<
                Seq<TrameModel>,
                TransformError,
            >(models(trames@)),
        decreases doc.objects@.len() - i,
    {
        let ghost prefix = doc.objects@.subrange(0, i + 1);
        assert(prefix.drop_last() == doc.objects@.subrange(0, i as int));
        assert(prefix.last() == doc.objects@[i as int]);
        match object_to_trame(&doc.objects[i], i, now) {
            Ok(t) => {
                let ghost before = trames@;
                trames.push(t);
                assert(models(trames@) == models(before).push(t@));
            },
            Err(e) => {
                proof {
                    lemma_frames_failure_persists(doc.objects@, i + 1, now);
                }
                return Err(e);
            },
        }
        i = i + 1;
    }
    assert(doc.objects@.subrange(0, doc.objects@.len() as int) == doc.objects@);
    proof {
        lemma_frames_len(doc.objects@, now);
    }
    Ok(trames)
}

/// The frames of a document; frames whose object gives no timestamp are dated
/// with the current time, read once for the whole document.
pub fn transform_to_trame(doc: Java) -> (r: Result<Vec<Trame>, TransformError>)
    ensures
        exists|now: Timestamp| now.millis >= 0 && outcome_is(r, #[trigger] frames_of(doc.objects@, now)),
        r matches Ok(v) ==> v@.len() == doc.objects@.len(),
{
    let now = Timestamp::now();
    let r = transform_with_now(&doc, now);
    assert(outcome_is(r, frames_of(doc.objects@, now)));
    r
}

/// Once the frames of a prefix of the objects fail, those of every longer prefix
/// fail the same way.
proof fn lemma_frames_failure_persists(objs: Seq<JavaObject>, k: int, now: Timestamp)
    requires
        0 <= k <= objs.len(),
        frames_of(objs.subrange(0, k), now) is Err,
    ensures
        frames_of(objs, now) == frames_of(objs.subrange(0, k), now),
    decreases objs.len() - k,
{
    if k < objs.len() {
        let next = objs.subrange(0, k + 1);
        assert(next.drop_last() == objs.subrange(0, k));
        lemma_frames_failure_persists(objs, k + 1, now);
    } else {
        assert(objs.subrange(0, k) == objs);
    }
}

/// Every document that transforms yields exactly one frame per object.
pub proof fn lemma_frames_len(objs: Seq<JavaObject>, now: Timestamp)
    ensures
        frames_of(objs, now) matches Ok(s) ==> s.len() == objs.len(),
    decreases objs.len(),
{
    if objs.len() > 0 {
        lemma_frames_len(objs.drop_last(), now);
    }
}

/// Two frames agree on every field but the date, and their dates agree too
/// unless they are the fallback dates `n1` and `n2`.
pub open spec fn dated_alike(a: TrameModel, b: TrameModel, n1: Timestamp, n2: Timestamp) -> bool {
    &&& a.fn_id == b.fn_id
    &&& a.logical_canal == b.logical_canal
    &&& a.contenu_segment == b.contenu_segment
    &&& a.freq == b.freq
    &&& a.localisation == b.localisation
    &&& a.length == b.length
    &&& a.sub_type == b.sub_type
    &&& (a.date == b.date || (a.date == n1 && b.date == n2))
}

/// Two outcomes of one frame: the same failure, or frames alike but for fallback dates.
pub open spec fn frame_outcomes_alike(
    r1: Result<TrameModel, TransformError>,
    r2: Result<TrameModel, TransformError>,
    n1: Timestamp,
    n2: Timestamp,
) -> bool {
    match (r1, r2) {
        (Ok(a), Ok(b)) => dated_alike(a, b, n1, n2),
        (Err(e1), Err(e2)) => e1 == e2,
        _ => false,
    }
}

/// Two outcomes of a document: the same failure, or frame sequences of one
/// length that are pairwise alike but for fallback dates.
pub open spec fn outcomes_alike(
    r1: Result<Seq<TrameModel>, TransformError>,
    r2: Result<Seq<TrameModel>, TransformError>,
    n1: Timestamp,
    n2: Timestamp,
) -> bool {
    match (r1, r2) {
        (Ok(s1), Ok(s2)) => s1.len() == s2.len() && forall|i: int|
            0 <= i < s1.len() ==> dated_alike(#[trigger] s1[i], s2[i], n1, n2),
        (Err(e1), Err(e2)) => e1 == e2,
        _ => false,
    }
}

proof fn lemma_applied_alike(
    f1: TrameModel,
    f2: TrameModel,
    v: JavaVoid,
    object: int,
    n1: Timestamp,
    n2: Timestamp,
)
    requires
        dated_alike(f1, f2, n1, n2),
    ensures
        frame_outcomes_alike(applied(f1, v, object), applied(f2, v, object), n1, n2),
{
}

proof fn lemma_applied_all_alike(
    f1: TrameModel,
    f2: TrameModel,
    voids: Seq<JavaVoid>,
    object: int,
    n1: Timestamp,
    n2: Timestamp,
)
    requires
        dated_alike(f1, f2, n1, n2),
    ensures
        frame_outcomes_alike(applied_all(f1, voids, object), applied_all(f2, voids, object), n1, n2),
    decreases voids.len(),
{
    if voids.len() > 0 {
        lemma_applied_all_alike(f1, f2, voids.drop_last(), object, n1, n2);
        if let (Ok(g1), Ok(g2)) = (
            applied_all(f1, voids.drop_last(), object),
            applied_all(f2, voids.drop_last(), object),
        ) {
            lemma_applied_alike(g1, g2, voids.last(), object, n1, n2);
        }
    }
}

/// Transforming one document twice, with the clock reading `n1` and then `n2`,
/// gives the same failure, or frames that are identical field for field except
/// for the dates of frames that fell back to the clock.
pub proof fn lemma_transform_repeatable(objs: Seq<JavaObject>, n1: Timestamp, n2: Timestamp)
    ensures
        outcomes_alike(frames_of(objs, n1), frames_of(objs, n2), n1, n2),
    decreases objs.len(),
{
    if objs.len() > 0 {
        lemma_transform_repeatable(objs.drop_last(), n1, n2);
        lemma_applied_all_alike(
            default_frame(n1),
            default_frame(n2),
            objs.last().voids@,
            objs.len() - 1,
            n1,
            n2,
        );
        if let (Ok(s1), Ok(s2)) = (frames_of(objs.drop_last(), n1), frames_of(objs.drop_last(), n2)) {
            if let (Ok(a), Ok(b)) = (
                frame_of(objs.last(), objs.len() - 1, n1),
                frame_of(objs.last(), objs.len() - 1, n2),
            ) {
                assert forall|i: int| 0 <= i < s1.push(a).len() implies dated_alike(
                    #[trigger] s1.push(a)[i],
                    s2.push(b)[i],
                    n1,
                    n2,
                ) by {
                    if i < s1.len() {
                        assert(s1.push(a)[i] == s1[i]);
                        assert(s2.push(b)[i] == s2[i]);
                    }
                }
            }
        }
    }
}

/// An object without property entries yields the default frame, dated with the clock.
pub proof fn lemma_empty_object_defaults(obj: JavaObject, object: int, now: Timestamp)
    requires
        obj.voids@.len() == 0,
    ensures
        frame_of(obj, object, now) == Ok::<TrameModel, TransformError>(default_frame(now)),
        default_frame(now).logical_canal == 0,
        default_frame(now).contenu_segment.len() == 0,
        default_frame(now).freq == 0,
        default_frame(now).length == 0,
        default_frame(now).sub_type == 0,
        default_frame(now).fn_id is None,
        default_frame(now).localisation is None,
        default_frame(now).date == now,
{
}

/// Of several `canal_Logique` entries, the last one that carries an integer decides:
/// when the last entry of an object is such an entry, the channel is its value.
pub proof fn lemma_last_canal_wins(f: TrameModel, voids: Seq<JavaVoid>, object: int, t: i32)
    requires
        voids.len() > 0,
        property_kind(voids.last().property@) == PropertyKind::LogicalCanal,
        voids.last().value == VoidValue::Int(t),
    ensures
        applied_all(f, voids, object) matches Ok(m) ==> m.logical_canal == t,
{
}

/// An entry that makes its object fail makes every longer run of entries fail.
proof fn lemma_bad_entry_fails(f: TrameModel, voids: Seq<JavaVoid>, k: int, object: int)
    requires
        0 <= k < voids.len(),
        forall|g: TrameModel| #[trigger] applied(g, voids[k], object) is Err,
    ensures
        applied_all(f, voids, object) is Err,
    decreases voids.len(),
{
    if k < voids.len() - 1 {
        assert(voids.drop_last()[k] == voids[k]);
        lemma_bad_entry_fails(f, voids.drop_last(), k, object);
    } else {
        if let Ok(g) = applied_all(f, voids.drop_last(), object) {
            assert(applied(g, voids[k], object) is Err);
        }
    }
}

proof fn lemma_bad_object_fails(objs: Seq<JavaObject>, j: int, now: Timestamp)
    requires
        0 <= j < objs.len(),
        frame_of(objs[j], j, now) is Err,
    ensures
        frames_of(objs, now) is Err,
    decreases objs.len(),
{
    if j < objs.len() - 1 {
        assert(objs.drop_last()[j] == objs[j]);
        lemma_bad_object_fails(objs.drop_last(), j, now);
    }
}

/// A `longueur` entry without an integer value, in any object, makes the whole
/// document fail: no frames are produced.
pub proof fn lemma_missing_length_fails(objs: Seq<JavaObject>, j: int, k: int, now: Timestamp)
    requires
        0 <= j < objs.len(),
        0 <= k < objs[j].voids@.len(),
        property_kind(objs[j].voids@[k].property@) == PropertyKind::Longueur,
        !(objs[j].voids@[k].value is Int),
    ensures
        frames_of(objs, now) is Err,
{
    lemma_bad_entry_fails(default_frame(now), objs[j].voids@, k, j);
    lemma_bad_object_fails(objs, j, now);
}

/// A `subType` entry without a byte value, in any object, makes the whole
/// document fail: no frames are produced.
pub proof fn lemma_missing_subtype_fails(objs: Seq<JavaObject>, j: int, k: int, now: Timestamp)
    requires
        0 <= j < objs.len(),
        0 <= k < objs[j].voids@.len(),
        property_kind(objs[j].voids@[k].property@) == PropertyKind::SubType,
        !(objs[j].voids@[k].value is Byte),
    ensures
        frames_of(objs, now) is Err,
{
    lemma_bad_entry_fails(default_frame(now), objs[j].voids@, k, j);
    lemma_bad_object_fails(objs, j, now);
}

} // verus!
