//! Reading a scene description: definitions of colors, materials and
//! transformations, then the camera, the lights and the shapes that are added.
//!
//! Numbers stay as they were written (an integer, or the text of a float);
//! what a description means in floating point is worked out by the caller.
use vstd::prelude::*;
use crate::yaml::{YamlToken, yaml_token_stream, tokenize, tok, lookup, present, item_count, node_end, has_suffix, lemma_lookup_after, lemma_skip_bounds, end_of_node, lookup_key, is_present, is_bad_value, items_of, text_equals, ends_with};

verus! {

broadcast use vstd::string::group_string_axioms;

/// Why a scene description could not be read.
#[derive(Debug, PartialEq, Eq, Structural, Clone, Copy)]
pub enum SceneError {
    /// The text is not YAML.
    Syntax,
    /// The text holds more or fewer than one document.
    DocumentCount,
    /// The token stream ends inside a node.
    Malformed,
    /// A number was expected.
    IncorrectFloat,
    /// A color was expected.
    IncorrectColor,
    /// A pattern type other than stripes, gradient, rings or checkers.
    IncorrectPatternType,
    /// A color name that no definition gives.
    UnknownColor,
    /// A material name that no definition gives.
    UnknownMaterial,
    /// A transformation name that no definition gives.
    UnknownTransformation,
    /// A string was expected.
    NotAString,
    /// A list was expected.
    NotAnArray,
    /// A list has fewer items than are read from it.
    MissingElement,
}

/// A number as written in the description.
#[derive(Debug, PartialEq, Clone)]
pub enum Number {
    Integer(i64),
    /// The text of a float.
    Real(String),
}

impl Number {
    pub fn duplicate(&self) -> (r: Number)
        ensures
            r == *self,
    {
        match self {
            Number::Integer(i) => Number::Integer(*i),
            Number::Real(s) => Number::Real(s.clone()),
        }
    }
}

/// Three numbers: a point, a vector or a color.
#[derive(Debug, PartialEq, Clone)]
pub struct Triple {
    pub first: Number,
    pub second: Number,
    pub third: Number,
}

impl Triple {
    pub fn duplicate(&self) -> (r: Triple)
        ensures
            r == *self,
    {
        Triple {
            first: self.first.duplicate(),
            second: self.second.duplicate(),
            third: self.third.duplicate(),
        }
    }
}

/// One step of a transformation, in the order in which the steps apply.
#[derive(Debug, PartialEq, Clone)]
pub enum TransformItem {
    /// A transformation given by a definition: its name, and the position
    /// among the definitions of the one of that name that was the latest
    /// where the step was read. It applies before everything that the list
    /// held up to it.
    Defined(String, usize),
    Scale(Triple),
    Translate(Triple),
    RotateX(Number),
    RotateY(Number),
    RotateZ(Number),
}

impl TransformItem {
    pub fn duplicate(&self) -> (r: TransformItem)
        ensures
            r == *self,
    {
        match self {
            TransformItem::Defined(s, k) => TransformItem::Defined(s.clone(), *k),
            TransformItem::Scale(v) => TransformItem::Scale(v.duplicate()),
            TransformItem::Translate(v) => TransformItem::Translate(v.duplicate()),
            TransformItem::RotateX(a) => TransformItem::RotateX(a.duplicate()),
            TransformItem::RotateY(a) => TransformItem::RotateY(a.duplicate()),
            TransformItem::RotateZ(a) => TransformItem::RotateZ(a.duplicate()),
        }
    }
}

/// A copy of a list of transformation steps.
pub fn duplicate_items(items: &Vec<TransformItem>) -> (r: Vec<TransformItem>)
    ensures
        r@ == items@,
{
    let mut out: Vec<TransformItem> = Vec::new();
    let mut i: usize = 0;
    while i < items.len()
        invariant
            i <= items.len(),
            out@ == items@.take(i as int),
        decreases items.len() - i,
    {
        out.push(items[i].duplicate());
        assert(out@ =~= items@.take(i + 1));
        i = i + 1;
    }
    assert(items@.take(items.len() as int) =~= items@);
    out
}

#[derive(Debug, PartialEq, Eq, Structural, Clone, Copy)]
pub enum PatternKind {
    Stripes,
    Gradient,
    Rings,
    Checkers,
}

/// A pattern of two colors.
#[derive(Debug, PartialEq, Clone)]
pub struct PatternSpec {
    pub kind: PatternKind,
    pub color_a: Triple,
    pub color_b: Triple,
    /// `None` where the pattern keeps the identity transformation.
    pub transformation: Option<Vec<TransformItem>>,
}

pub struct PatternView {
    pub kind: PatternKind,
    pub color_a: Triple,
    pub color_b: Triple,
    pub transformation: Option<Seq<TransformItem>>,
}

impl View for PatternSpec {
    type V = PatternView;

    open spec fn view(&self) -> PatternView {
        PatternView {
            kind: self.kind,
            color_a: self.color_a,
            color_b: self.color_b,
            transformation: match self.transformation {
                Some(items) => Some(items@),
                None => None,
            },
        }
    }
}

impl PatternSpec {
    pub fn duplicate(&self) -> (r: PatternSpec)
        ensures
            r@ == self@,
    {
        PatternSpec {
            kind: self.kind,
            color_a: self.color_a.duplicate(),
            color_b: self.color_b.duplicate(),
            transformation: match &self.transformation {
                Some(items) => Some(duplicate_items(items)),
                None => None,
            },
        }
    }
}

/// The properties that a material sets; a property left at `None` keeps the
/// value of the default material.
#[derive(Debug, PartialEq, Clone)]
pub struct MaterialSpec {
    pub color: Option<Triple>,
    pub pattern: Option<PatternSpec>,
    pub ambient: Option<Number>,
    pub diffuse: Option<Number>,
    pub specular: Option<Number>,
    pub shininess: Option<Number>,
    pub reflective: Option<Number>,
    pub transparency: Option<Number>,
    pub refractive_index: Option<Number>,
}

pub struct MaterialView {
    pub color: Option<Triple>,
    pub pattern: Option<PatternView>,
    pub ambient: Option<Number>,
    pub diffuse: Option<Number>,
    pub specular: Option<Number>,
    pub shininess: Option<Number>,
    pub reflective: Option<Number>,
    pub transparency: Option<Number>,
    pub refractive_index: Option<Number>,
}

impl View for MaterialSpec {
    type V = MaterialView;

    open spec fn view(&self) -> MaterialView {
        MaterialView {
            color: self.color,
            pattern: match self.pattern {
                Some(p) => Some(p@),
                None => None,
            },
            ambient: self.ambient,
            diffuse: self.diffuse,
            specular: self.specular,
            shininess: self.shininess,
            reflective: self.reflective,
            transparency: self.transparency,
            refractive_index: self.refractive_index,
        }
    }
}

/// The material that sets nothing: the default material.
pub open spec fn default_material() -> MaterialView {
    MaterialView {
        color: None,
        pattern: None,
        ambient: None,
        diffuse: None,
        specular: None,
        shininess: None,
        reflective: None,
        transparency: None,
        refractive_index: None,
    }
}

fn duplicate_number(n: &Option<Number>) -> (r: Option<Number>)
    ensures
        r == *n,
{
    match n {
        Some(v) => Some(v.duplicate()),
        None => None,
    }
}

impl MaterialSpec {
    /// The material that sets nothing: the default material.
    pub fn default_spec() -> (r: MaterialSpec)
        ensures
            r@ == default_material(),
    {
        MaterialSpec {
            color: None,
            pattern: None,
            ambient: None,
            diffuse: None,
            specular: None,
            shininess: None,
            reflective: None,
            transparency: None,
            refractive_index: None,
        }
    }

    pub fn duplicate(&self) -> (r: MaterialSpec)
        ensures
            r@ == self@,
    {
        MaterialSpec {
            color: match &self.color {
                Some(c) => Some(c.duplicate()),
                None => None,
            },
            pattern: match &self.pattern {
                Some(p) => Some(p.duplicate()),
                None => None,
            },
            ambient: duplicate_number(&self.ambient),
            diffuse: duplicate_number(&self.diffuse),
            specular: duplicate_number(&self.specular),
            shininess: duplicate_number(&self.shininess),
            reflective: duplicate_number(&self.reflective),
            transparency: duplicate_number(&self.transparency),
            refractive_index: duplicate_number(&self.refractive_index),
        }
    }
}

/// A named definition, in the order in which the description gives them.
#[derive(Debug, PartialEq, Clone)]
pub enum Definition {
    Color(String, Triple),
    Material(String, MaterialSpec),
    Transformation(String, Vec<TransformItem>),
}

pub enum DefinitionView {
    Color(String, Triple),
    Material(String, MaterialView),
    Transformation(String, Seq<TransformItem>),
}

impl View for Definition {
    type V = DefinitionView;

    open spec fn view(&self) -> DefinitionView {
        match self {
            Definition::Color(n, c) => DefinitionView::Color(*n, *c),
            Definition::Material(n, m) => DefinitionView::Material(*n, m@),
            Definition::Transformation(n, items) => DefinitionView::Transformation(*n, items@),
        }
    }
}

/// The camera: image size, field of view, and where it looks from and to.
#[derive(Debug, PartialEq, Clone)]
pub struct CameraSpec {
    pub width: Number,
    pub height: Number,
    pub field_of_view: Number,
    pub from: Triple,
    pub to: Triple,
    pub up: Triple,
}

/// A point light.
#[derive(Debug, PartialEq, Clone)]
pub struct LightSpec {
    pub position: Triple,
    pub intensity: Triple,
}

#[derive(Debug, PartialEq, Eq, Structural, Clone, Copy)]
pub enum ShapeKind {
    Plane,
    Sphere,
    Cube,
    Cone,
    Cylinder,
}

/// A shape added to the scene.
#[derive(Debug, PartialEq, Clone)]
pub struct ShapeSpec {
    pub kind: ShapeKind,
    pub material: MaterialSpec,
    pub transformation: Vec<TransformItem>,
}

pub struct ShapeView {
    pub kind: ShapeKind,
    pub material: MaterialView,
    pub transformation: Seq<TransformItem>,
}

impl View for ShapeSpec {
    type V = ShapeView;

    open spec fn view(&self) -> ShapeView {
        ShapeView { kind: self.kind, material: self.material@, transformation: self.transformation@ }
    }
}

/// What a scene description holds.
#[derive(Debug, PartialEq, Clone)]
pub struct SceneDescription {
    /// Every definition, in order; a later one of the same kind and name
    /// replaces an earlier one.
    pub definitions: Vec<Definition>,
    /// The last camera added; `None` where none is.
    pub camera: Option<CameraSpec>,
    pub lights: Vec<LightSpec>,
    pub shapes: Vec<ShapeSpec>,
}

pub struct SceneView {
    pub definitions: Seq<DefinitionView>,
    pub camera: Option<CameraSpec>,
    pub lights: Seq<LightSpec>,
    pub shapes: Seq<ShapeView>,
}

impl View for SceneDescription {
    type V = SceneView;

    open spec fn view(&self) -> SceneView {
        SceneView {
            definitions: self.definitions@.map_values(|d: Definition| d@),
            camera: self.camera,
            lights: self.lights@,
            shapes: self.shapes@.map_values(|s: ShapeSpec| s@),
        }
    }
}


// ---------------------------------------------------------------------------
// What a description means
// ---------------------------------------------------------------------------

/// The color of the last color definition named `name`.
pub open spec fn find_color(defs: Seq<DefinitionView>, name: Seq<char>) -> Option<Triple>
    decreases defs.len(),
{
    if defs.len() == 0 {
        None
    } else {
        match defs.last() {
            DefinitionView::Color(n, c) => if n@ == name {
                Some(c)
            } else {
                find_color(defs.drop_last(), name)
            },
            _ => find_color(defs.drop_last(), name),
        }
    }
}

/// The material of the last material definition named `name`.
pub open spec fn find_material(defs: Seq<DefinitionView>, name: Seq<char>) -> Option<MaterialView>
    decreases defs.len(),
{
    if defs.len() == 0 {
        None
    } else {
        match defs.last() {
            DefinitionView::Material(n, m) => if n@ == name {
                Some(m)
            } else {
                find_material(defs.drop_last(), name)
            },
            _ => find_material(defs.drop_last(), name),
        }
    }
}

/// The position among `defs` of the last transformation definition named
/// `name`.
pub open spec fn find_transformation(defs: Seq<DefinitionView>, name: Seq<char>) -> Option<int>
    decreases defs.len(),
{
    if defs.len() == 0 {
        None
    } else {
        match defs.last() {
            DefinitionView::Transformation(n, _) => if n@ == name {
                Some(defs.len() - 1)
            } else {
                find_transformation(defs.drop_last(), name)
            },
            _ => find_transformation(defs.drop_last(), name),
        }
    }
}

/// The number at `p`.
pub open spec fn spec_number(t: Seq<YamlToken>, p: int) -> Result<Number, SceneError> {
    match tok(t, p) {
        YamlToken::Integer(i) => Ok(Number::Integer(i)),
        YamlToken::Real(s) => Ok(Number::Real(s)),
        _ => Err(SceneError::IncorrectFloat),
    }
}

/// Three numbers read from the `available` consecutive nodes that start at
/// `first`: the first three are read as numbers, then three must be there.
pub open spec fn spec_triple(t: Seq<YamlToken>, first: int, available: int) -> Result<
    Triple,
    SceneError,
> {
    if available < 1 {
        Err(SceneError::MissingElement)
    } else {
        match spec_number(t, first) {
            Err(e) => Err(e),
            Ok(a) => if available < 2 {
                Err(SceneError::MissingElement)
            } else {
                match node_end(t, first) {
                    None => Err(SceneError::Malformed),
                    Some(p1) => match spec_number(t, p1) {
                        Err(e) => Err(e),
                        Ok(b) => if available < 3 {
                            Err(SceneError::MissingElement)
                        } else {
                            match node_end(t, p1) {
                                None => Err(SceneError::Malformed),
                                Some(p2) => match spec_number(t, p2) {
                                    Err(e) => Err(e),
                                    Ok(c) => Ok(Triple { first: a, second: b, third: c }),
                                },
                            }
                        },
                    },
                }
            },
        }
    }
}

/// Three numbers from the list at `p`.
pub open spec fn spec_list_triple(t: Seq<YamlToken>, p: int) -> Result<Triple, SceneError> {
    match tok(t, p) {
        YamlToken::Array(n) => spec_triple(t, p + 1, n as int),
        _ => Err(SceneError::NotAnArray),
    }
}

/// The color at `p`: a list of three numbers, the name of a defined color, or
/// a mapping whose `color` (where it has one) or else `value` is a color.
pub open spec fn spec_color(t: Seq<YamlToken>, p: int, defs: Seq<DefinitionView>) -> Result<
    Triple,
    SceneError,
>
    decreases t.len() - p,
{
    match tok(t, p) {
        YamlToken::Hash(_) => {
            let c = lookup(t, p, "color"@);
            let v = lookup(t, p, "value"@);
            proof {
                lemma_lookup_after(t, p, "color"@);
                lemma_lookup_after(t, p, "value"@);
            }
            if !(tok(t, c) is BadValue) {
                spec_color(t, c, defs)
            } else {
                spec_color(t, v, defs)
            }
        },
        YamlToken::Array(n) => spec_triple(t, p + 1, n as int),
        YamlToken::Str(name) => match find_color(defs, name@) {
            Some(c) => Ok(c),
            None => Err(SceneError::UnknownColor),
        },
        _ => Err(SceneError::IncorrectColor),
    }
}

/// The node at `p` has the shape of a color: a list, a name, or a mapping
/// whose `color` (where it has one) or else `value` has the shape of a color.
/// Reading any other node as a color is an error.
pub open spec fn color_shape_ok(t: Seq<YamlToken>, p: int) -> bool
    decreases t.len() - p,
{
    match tok(t, p) {
        YamlToken::Hash(_) => {
            let c = lookup(t, p, "color"@);
            let v = lookup(t, p, "value"@);
            proof {
                lemma_lookup_after(t, p, "color"@);
                lemma_lookup_after(t, p, "value"@);
            }
            if !(tok(t, c) is BadValue) {
                color_shape_ok(t, c)
            } else {
                color_shape_ok(t, v)
            }
        },
        YamlToken::Array(_) => true,
        YamlToken::Str(_) => true,
        _ => false,
    }
}

/// A node without the shape of a color reads as `IncorrectColor`.
proof fn lemma_color_shape(t: Seq<YamlToken>, p: int, defs: Seq<DefinitionView>)
    requires
        0 <= p,
        !color_shape_ok(t, p),
    ensures
        spec_color(t, p, defs) == Err::<Triple, SceneError>(SceneError::IncorrectColor),
    decreases t.len() - p,
{
    if let YamlToken::Hash(_) = tok(t, p) {
        let c = lookup(t, p, "color"@);
        let v = lookup(t, p, "value"@);
        lemma_lookup_after(t, p, "color"@);
        lemma_lookup_after(t, p, "value"@);
        if !(tok(t, c) is BadValue) {
            lemma_color_shape(t, c, defs);
        } else {
            lemma_color_shape(t, v, defs);
        }
    }
}

pub open spec fn rotation(op: Seq<char>, angle: Number) -> TransformItem {
    if op == "rotate-x"@ {
        TransformItem::RotateX(angle)
    } else if op == "rotate-y"@ {
        TransformItem::RotateY(angle)
    } else {
        TransformItem::RotateZ(angle)
    }
}

/// The steps `acc` followed by what the transformation item at `pos` adds:
/// the name of a defined transformation, or a list whose first item names
/// the operation (`scale`, `translate`, `rotate-x`, `rotate-y`, `rotate-z`)
/// and whose next items are its numbers. Other operations and other nodes add
/// nothing.
pub open spec fn spec_transform_step(
    t: Seq<YamlToken>,
    pos: int,
    defs: Seq<DefinitionView>,
    acc: Seq<TransformItem>,
) -> Result<Seq<TransformItem>, SceneError> {
    match tok(t, pos) {
        YamlToken::Str(name) => match find_transformation(defs, name@) {
            Some(k) => Ok(acc.push(TransformItem::Defined(name, k as usize))),
            None => Err(SceneError::UnknownTransformation),
        },
        YamlToken::Array(m) => if m < 1 {
            Err(SceneError::MissingElement)
        } else {
            match tok(t, pos + 1) {
                YamlToken::Str(op) => if op@ == "scale"@ || op@ == "translate"@ {
                    if m < 4 {
                        Err(SceneError::MissingElement)
                    } else {
                        match node_end(t, pos + 1) {
                            None => Err(SceneError::Malformed),
                            Some(q) => match spec_triple(t, q, 3) {
                                Err(e) => Err(e),
                                Ok(v) => Ok(
                                    acc.push(
                                        if op@ == "scale"@ {
                                            TransformItem::Scale(v)
                                        } else {
                                            TransformItem::Translate(v)
                                        },
                                    ),
                                ),
                            },
                        }
                    }
                } else if op@ == "rotate-x"@ || op@ == "rotate-y"@ || op@ == "rotate-z"@ {
                    if m < 2 {
                        Err(SceneError::MissingElement)
                    } else {
                        match node_end(t, pos + 1) {
                            None => Err(SceneError::Malformed),
                            Some(q) => match spec_number(t, q) {
                                Err(e) => Err(e),
                                Ok(a) => Ok(acc.push(rotation(op@, a))),
                            },
                        }
                    }
                } else {
                    Ok(acc)
                },
                _ => Err(SceneError::NotAString),
            }
        },
        _ => Ok(acc),
    }
}

/// `acc` followed by the steps of the `count` items that start at `pos`.
pub open spec fn spec_transform_items(
    t: Seq<YamlToken>,
    pos: int,
    count: int,
    defs: Seq<DefinitionView>,
    acc: Seq<TransformItem>,
) -> Result<Seq<TransformItem>, SceneError>
    decreases count,
{
    if count <= 0 {
        Ok(acc)
    } else {
        match spec_transform_step(t, pos, defs, acc) {
            Err(e) => Err(e),
            Ok(next_acc) => match node_end(t, pos) {
                None => Err(SceneError::Malformed),
                Some(next) => spec_transform_items(t, next, count - 1, defs, next_acc),
            },
        }
    }
}

/// The steps of the transformation at `p`: those of its items where it is a
/// list, none otherwise.
pub open spec fn spec_transform(t: Seq<YamlToken>, p: int, defs: Seq<DefinitionView>) -> Result<
    Seq<TransformItem>,
    SceneError,
> {
    spec_transform_items(t, p + 1, item_count(t, p), defs, Seq::empty())
}

pub open spec fn pattern_kind(name: Seq<char>) -> Option<PatternKind> {
    if name == "stripes"@ {
        Some(PatternKind::Stripes)
    } else if name == "gradient"@ {
        Some(PatternKind::Gradient)
    } else if name == "rings"@ {
        Some(PatternKind::Rings)
    } else if name == "checkers"@ {
        Some(PatternKind::Checkers)
    } else {
        None
    }
}

/// The two colors of the pattern at `p`, from its `colors` list, and its
/// transformation, from its `transform` where it has one.
pub open spec fn spec_pattern_parts(t: Seq<YamlToken>, p: int, defs: Seq<DefinitionView>) -> Result<
    (Triple, Triple, Option<Seq<TransformItem>>),
    SceneError,
> {
    let colors = lookup(t, p, "colors"@);
    match tok(t, colors) {
        YamlToken::Array(n) => if n < 1 {
            Err(SceneError::MissingElement)
        } else {
            match spec_color(t, colors + 1, defs) {
                Err(e) => Err(e),
                Ok(a) => if n < 2 {
                    Err(SceneError::MissingElement)
                } else {
                    match node_end(t, colors + 1) {
                        None => Err(SceneError::Malformed),
                        Some(q) => match spec_color(t, q, defs) {
                            Err(e) => Err(e),
                            Ok(b) => {
                                let tr = lookup(t, p, "transform"@);
                                if tok(t, tr) is BadValue {
                                    Ok((a, b, None))
                                } else {
                                    match spec_transform(t, tr, defs) {
                                        Err(e) => Err(e),
                                        Ok(items) => Ok((a, b, Some(items))),
                                    }
                                }
                            },
                        },
                    }
                },
            }
        },
        _ => Err(SceneError::NotAnArray),
    }
}

/// The `type` of the pattern at `p` is one of `stripes`, `gradient`, `rings`
/// and `checkers`.
pub open spec fn pattern_type_known(t: Seq<YamlToken>, p: int) -> bool {
    tok(t, lookup(t, p, "type"@)) matches YamlToken::Str(s) && pattern_kind(s@) is Some
}

/// The pattern at `p`: two colors from its `colors` list, its `transform`
/// where it has one, and its `type`; `IncorrectPatternType` where the type is
/// missing or none of the four.
pub open spec fn spec_pattern(t: Seq<YamlToken>, p: int, defs: Seq<DefinitionView>) -> Result<
    PatternView,
    SceneError,
> {
    match spec_pattern_parts(t, p, defs) {
        Err(e) => Err(e),
        Ok((color_a, color_b, transformation)) => match tok(t, lookup(t, p, "type"@)) {
            YamlToken::Str(s) => match pattern_kind(s@) {
                Some(kind) => Ok(PatternView { kind, color_a, color_b, transformation }),
                None => Err(SceneError::IncorrectPatternType),
            },
            _ => Err(SceneError::IncorrectPatternType),
        },
    }
}

/// `current`, or the number under `key` where `node` has one.
pub open spec fn override_number(
    t: Seq<YamlToken>,
    node: int,
    key: Seq<char>,
    current: Option<Number>,
) -> Result<Option<Number>, SceneError> {
    if present(t, node, key) {
        match spec_number(t, lookup(t, node, key)) {
            Ok(v) => Ok(Some(v)),
            Err(e) => Err(e),
        }
    } else {
        Ok(current)
    }
}

/// `base` with its color and pattern replaced by those that `node` gives.
pub open spec fn spec_material_looks(
    t: Seq<YamlToken>,
    node: int,
    defs: Seq<DefinitionView>,
    base: MaterialView,
) -> Result<MaterialView, SceneError> {
    let color = if present(t, node, "color"@) {
        match spec_color(t, lookup(t, node, "color"@), defs) {
            Ok(c) => Ok(Some(c)),
            Err(e) => Err(e),
        }
    } else {
        Ok(base.color)
    };
    match color {
        Err(e) => Err(e),
        Ok(color) => {
            let pattern = if present(t, node, "pattern"@) {
                match spec_pattern(t, lookup(t, node, "pattern"@), defs) {
                    Ok(p) => Ok(Some(p)),
                    Err(e) => Err(e),
                }
            } else {
                Ok(base.pattern)
            };
            match pattern {
                Err(e) => Err(e),
                Ok(pattern) => Ok(MaterialView { color, pattern, ..base }),
            }
        },
    }
}

/// `base` with its numeric properties replaced by those that `node` gives.
pub open spec fn spec_material_numbers(t: Seq<YamlToken>, node: int, base: MaterialView) -> Result<
    MaterialView,
    SceneError,
> {
    match override_number(t, node, "ambient"@, base.ambient) {
        Err(e) => Err(e),
        Ok(ambient) => match override_number(t, node, "diffuse"@, base.diffuse) {
            Err(e) => Err(e),
            Ok(diffuse) => match override_number(t, node, "specular"@, base.specular) {
                Err(e) => Err(e),
                Ok(specular) => match override_number(t, node, "shininess"@, base.shininess) {
                    Err(e) => Err(e),
                    Ok(shininess) => match override_number(t, node, "reflective"@, base.reflective) {
                        Err(e) => Err(e),
                        Ok(reflective) => match override_number(
                            t,
                            node,
                            "transparency"@,
                            base.transparency,
                        ) {
                            Err(e) => Err(e),
                            Ok(transparency) => match override_number(
                                t,
                                node,
                                "refractive-index"@,
                                base.refractive_index,
                            ) {
                                Err(e) => Err(e),
                                Ok(refractive_index) => Ok(
                                    MaterialView {
                                        ambient,
                                        diffuse,
                                        specular,
                                        shininess,
                                        reflective,
                                        transparency,
                                        refractive_index,
                                        ..base
                                    },
                                ),
                            },
                        },
                    },
                },
            },
        },
    }
}

/// `base` with every property that `node` gives replaced by it.
pub open spec fn spec_material_fields(
    t: Seq<YamlToken>,
    node: int,
    defs: Seq<DefinitionView>,
    base: MaterialView,
) -> Result<MaterialView, SceneError> {
    match spec_material_looks(t, node, defs, base) {
        Err(e) => Err(e),
        Ok(m) => spec_material_numbers(t, node, m),
    }
}

/// The material that `holder` extends: the defined material named by its
/// `extend`, or the default material where it has none.
pub open spec fn spec_base_material(
    t: Seq<YamlToken>,
    holder: int,
    defs: Seq<DefinitionView>,
) -> Result<MaterialView, SceneError> {
    let e = lookup(t, holder, "extend"@);
    match tok(t, e) {
        YamlToken::BadValue => Ok(default_material()),
        YamlToken::Str(name) => match find_material(defs, name@) {
            Some(m) => Ok(m),
            None => Err(SceneError::UnknownMaterial),
        },
        _ => Err(SceneError::NotAString),
    }
}

/// The material at `p`: the name of a defined material, or a mapping of
/// properties over the material it extends.
pub open spec fn spec_material(t: Seq<YamlToken>, p: int, defs: Seq<DefinitionView>) -> Result<
    MaterialView,
    SceneError,
> {
    match tok(t, p) {
        YamlToken::Str(name) => match find_material(defs, name@) {
            Some(m) => Ok(m),
            None => Err(SceneError::UnknownMaterial),
        },
        _ => match spec_base_material(t, p, defs) {
            Err(e) => Err(e),
            Ok(base) => spec_material_fields(t, p, defs, base),
        },
    }
}

/// The material that the definition at `entry` gives: the properties under
/// its `value` over the material that its `extend` names.
pub open spec fn spec_material_definition(
    t: Seq<YamlToken>,
    entry: int,
    defs: Seq<DefinitionView>,
) -> Result<MaterialView, SceneError> {
    match spec_base_material(t, entry, defs) {
        Err(e) => Err(e),
        Ok(base) => spec_material_fields(t, lookup(t, entry, "value"@), defs, base),
    }
}

/// `defs` followed by what the entry at `entry` defines, where its `define`
/// names a color, a material, a transformation or an object.
pub open spec fn definition_step(t: Seq<YamlToken>, entry: int, defs: Seq<DefinitionView>) -> Result<
    Seq<DefinitionView>,
    SceneError,
> {
    match tok(t, lookup(t, entry, "define"@)) {
        YamlToken::Str(name) => if has_suffix(name@, "-color"@) {
            match spec_color(t, entry, defs) {
                Ok(c) => Ok(defs.push(DefinitionView::Color(name, c))),
                Err(e) => Err(e),
            }
        } else if has_suffix(name@, "-material"@) {
            match spec_material_definition(t, entry, defs) {
                Ok(m) => Ok(defs.push(DefinitionView::Material(name, m))),
                Err(e) => Err(e),
            }
        } else if has_suffix(name@, "-transform"@) || has_suffix(name@, "-object"@) {
            match spec_transform(t, lookup(t, entry, "value"@), defs) {
                Ok(items) => Ok(defs.push(DefinitionView::Transformation(name, items))),
                Err(e) => Err(e),
            }
        } else {
            Ok(defs)
        },
        _ => Ok(defs),
    }
}

/// `defs` followed by the definitions of the `count` entries from `pos`.
pub open spec fn spec_definitions(
    t: Seq<YamlToken>,
    pos: int,
    count: int,
    defs: Seq<DefinitionView>,
) -> Result<Seq<DefinitionView>, SceneError>
    decreases count,
{
    if count <= 0 {
        Ok(defs)
    } else {
        match definition_step(t, pos, defs) {
            Err(e) => Err(e),
            Ok(next_defs) => match node_end(t, pos) {
                None => Err(SceneError::Malformed),
                Some(next) => spec_definitions(t, next, count - 1, next_defs),
            },
        }
    }
}

/// The camera that the entry at `entry` adds.
pub open spec fn spec_camera(t: Seq<YamlToken>, entry: int) -> Result<CameraSpec, SceneError> {
    match spec_number(t, lookup(t, entry, "width"@)) {
        Err(e) => Err(e),
        Ok(width) => match spec_number(t, lookup(t, entry, "height"@)) {
            Err(e) => Err(e),
            Ok(height) => match spec_number(t, lookup(t, entry, "field-of-view"@)) {
                Err(e) => Err(e),
                Ok(field_of_view) => match spec_list_triple(t, lookup(t, entry, "from"@)) {
                    Err(e) => Err(e),
                    Ok(from) => match spec_list_triple(t, lookup(t, entry, "to"@)) {
                        Err(e) => Err(e),
                        Ok(to) => match spec_list_triple(t, lookup(t, entry, "up"@)) {
                            Err(e) => Err(e),
                            Ok(up) => Ok(CameraSpec { width, height, field_of_view, from, to, up }),
                        },
                    },
                },
            },
        },
    }
}

/// The light that the entry at `entry` adds.
pub open spec fn spec_light(t: Seq<YamlToken>, entry: int) -> Result<LightSpec, SceneError> {
    match spec_list_triple(t, lookup(t, entry, "at"@)) {
        Err(e) => Err(e),
        Ok(position) => match spec_list_triple(t, lookup(t, entry, "intensity"@)) {
            Err(e) => Err(e),
            Ok(intensity) => Ok(LightSpec { position, intensity }),
        },
    }
}

pub open spec fn shape_kind(name: Seq<char>) -> Option<ShapeKind> {
    if name == "plane"@ {
        Some(ShapeKind::Plane)
    } else if name == "sphere"@ {
        Some(ShapeKind::Sphere)
    } else if name == "cube"@ {
        Some(ShapeKind::Cube)
    } else if name == "cone"@ {
        Some(ShapeKind::Cone)
    } else if name == "cylinder"@ {
        Some(ShapeKind::Cylinder)
    } else {
        None
    }
}

/// The shape of kind `kind` that the entry at `entry` adds.
pub open spec fn spec_shape(
    t: Seq<YamlToken>,
    entry: int,
    defs: Seq<DefinitionView>,
    kind: ShapeKind,
) -> Result<ShapeView, SceneError> {
    match spec_material(t, lookup(t, entry, "material"@), defs) {
        Err(e) => Err(e),
        Ok(material) => match spec_transform(t, lookup(t, entry, "transform"@), defs) {
            Err(e) => Err(e),
            Ok(transformation) => Ok(ShapeView { kind, material, transformation }),
        },
    }
}

/// `scene` with what the entry at `entry` adds, where its `add` names a
/// camera, a light or a shape.
pub open spec fn scene_step(t: Seq<YamlToken>, entry: int, scene: SceneView) -> Result<
    SceneView,
    SceneError,
> {
    match tok(t, lookup(t, entry, "add"@)) {
        YamlToken::Str(name) => if name@ == "camera"@ {
            match spec_camera(t, entry) {
                Err(e) => Err(e),
                Ok(camera) => Ok(SceneView { camera: Some(camera), ..scene }),
            }
        } else if name@ == "light"@ {
            match spec_light(t, entry) {
                Err(e) => Err(e),
                Ok(light) => Ok(SceneView { lights: scene.lights.push(light), ..scene }),
            }
        } else {
            match shape_kind(name@) {
                Some(kind) => match spec_shape(t, entry, scene.definitions, kind) {
                    Err(e) => Err(e),
                    Ok(shape) => Ok(SceneView { shapes: scene.shapes.push(shape), ..scene }),
                },
                None => Ok(scene),
            }
        },
        _ => Ok(scene),
    }
}

/// `scene` with what the `count` entries from `pos` add.
pub open spec fn spec_scene(t: Seq<YamlToken>, pos: int, count: int, scene: SceneView) -> Result<
    SceneView,
    SceneError,
>
    decreases count,
{
    if count <= 0 {
        Ok(scene)
    } else {
        match scene_step(t, pos, scene) {
            Err(e) => Err(e),
            Ok(next_scene) => match node_end(t, pos) {
                None => Err(SceneError::Malformed),
                Some(next) => spec_scene(t, next, count - 1, next_scene),
            },
        }
    }
}

/// The scene that the token stream `t` describes: its one document is a list
/// of entries; the definitions are read from all of them first, then what
/// they add.
pub open spec fn describe(t: Seq<YamlToken>) -> Result<SceneView, SceneError> {
    match tok(t, 0) {
        YamlToken::Array(k) => if k != 1 {
            Err(SceneError::DocumentCount)
        } else {
            let n = item_count(t, 1);
            match spec_definitions(t, 2, n, Seq::empty()) {
                Err(e) => Err(e),
                Ok(defs) => spec_scene(
                    t,
                    2,
                    n,
                    SceneView {
                        definitions: defs,
                        camera: None,
                        lights: Seq::empty(),
                        shapes: Seq::empty(),
                    },
                ),
            }
        },
        _ => Err(SceneError::Malformed),
    }
}

/// A result, its value taken by its view.
pub open spec fn result_view<T: View>(r: Result<T, SceneError>) -> Result<T::V, SceneError> {
    match r {
        Ok(v) => Ok(v@),
        Err(e) => Err(e),
    }
}


// ---------------------------------------------------------------------------
// Reading a description
// ---------------------------------------------------------------------------

/// The definitions, taken by their views.
pub open spec fn defs_view(defs: Seq<Definition>) -> Seq<DefinitionView> {
    defs.map_values(|d: Definition| d@)
}

proof fn lemma_defs_prefix(defs: Seq<Definition>, i: int)
    requires
        0 < i <= defs.len(),
    ensures
        defs_view(defs).take(i).drop_last() == defs_view(defs).take(i - 1),
        defs_view(defs).take(i).last() == defs[i - 1]@,
        defs_view(defs).take(i).len() == i,
{
    assert(defs_view(defs).take(i).drop_last() =~= defs_view(defs).take(i - 1));
}

/// The color of the last color definition named `name`.
fn find_color_definition(defs: &Vec<Definition>, name: &String) -> (r: Option<Triple>)
    ensures
        r == find_color(defs_view(defs@), name@),
{
    let mut i = defs.len();
    assert(defs_view(defs@).take(i as int) =~= defs_view(defs@));
    while i > 0
        invariant
            i <= defs.len(),
            find_color(defs_view(defs@), name@) == find_color(
                defs_view(defs@).take(i as int),
                name@,
            ),
        decreases i,
    {
        proof {
            lemma_defs_prefix(defs@, i as int);
        }
        i = i - 1;
        if let Definition::Color(n, c) = &defs[i] {
            if *n == *name {
                return Some(c.duplicate());
            }
        }
    }
    None
}

/// The material of the last material definition named `name`.
fn find_material_definition(defs: &Vec<Definition>, name: &String) -> (r: Option<MaterialSpec>)
    ensures
        match r {
            Some(m) => find_material(defs_view(defs@), name@) == Some(m@),
            None => find_material(defs_view(defs@), name@) is None,
        },
{
    let mut i = defs.len();
    assert(defs_view(defs@).take(i as int) =~= defs_view(defs@));
    while i > 0
        invariant
            i <= defs.len(),
            find_material(defs_view(defs@), name@) == find_material(
                defs_view(defs@).take(i as int),
                name@,
            ),
        decreases i,
    {
        proof {
            lemma_defs_prefix(defs@, i as int);
        }
        i = i - 1;
        if let Definition::Material(n, m) = &defs[i] {
            if *n == *name {
                return Some(m.duplicate());
            }
        }
    }
    None
}

/// The position of the last transformation definition named `name`.
fn find_transformation_definition(defs: &Vec<Definition>, name: &String) -> (r: Option<usize>)
    ensures
        match r {
            Some(k) => find_transformation(defs_view(defs@), name@) == Some(k as int),
            None => find_transformation(defs_view(defs@), name@) is None,
        },
{
    let mut i = defs.len();
    assert(defs_view(defs@).take(i as int) =~= defs_view(defs@));
    while i > 0
        invariant
            i <= defs.len(),
            find_transformation(defs_view(defs@), name@) == find_transformation(
                defs_view(defs@).take(i as int),
                name@,
            ),
        decreases i,
    {
        proof {
            lemma_defs_prefix(defs@, i as int);
        }
        i = i - 1;
        if let Definition::Transformation(n, _) = &defs[i] {
            if *n == *name {
                return Some(i);
            }
        }
    }
    None
}

/// The number at `p`.
fn parse_number(t: &Vec<YamlToken>, p: usize) -> (r: Result<Number, SceneError>)
    ensures
        r == spec_number(t@, p as int),
{
    if p >= t.len() {
        return Err(SceneError::IncorrectFloat);
    }
    match &t[p] {
        YamlToken::Integer(i) => Ok(Number::Integer(*i)),
        YamlToken::Real(s) => Ok(Number::Real(s.clone())),
        _ => Err(SceneError::IncorrectFloat),
    }
}

/// Three numbers from the `available` consecutive nodes that start at `first`.
fn parse_triple(t: &Vec<YamlToken>, first: usize, available: usize) -> (r: Result<
    Triple,
    SceneError,
>)
    ensures
        r == spec_triple(t@, first as int, available as int),
{
    if available < 1 {
        return Err(SceneError::MissingElement);
    }
    let a = match parse_number(t, first) {
        Ok(v) => v,
        Err(e) => {
            return Err(e);
        },
    };
    if available < 2 {
        return Err(SceneError::MissingElement);
    }
    let p1 = match end_of_node(t, first) {
        Some(e) => e,
        None => {
            return Err(SceneError::Malformed);
        },
    };
    let b = match parse_number(t, p1) {
        Ok(v) => v,
        Err(e) => {
            return Err(e);
        },
    };
    if available < 3 {
        return Err(SceneError::MissingElement);
    }
    let p2 = match end_of_node(t, p1) {
        Some(e) => e,
        None => {
            return Err(SceneError::Malformed);
        },
    };
    let c = match parse_number(t, p2) {
        Ok(v) => v,
        Err(e) => {
            return Err(e);
        },
    };
    Ok(Triple { first: a, second: b, third: c })
}

/// Three numbers from the list at `p`.
fn parse_list_triple(t: &Vec<YamlToken>, p: usize) -> (r: Result<Triple, SceneError>)
    ensures
        r == spec_list_triple(t@, p as int),
{
    if p >= t.len() {
        return Err(SceneError::NotAnArray);
    }
    match &t[p] {
        YamlToken::Array(n) => parse_triple(t, p + 1, *n),
        _ => Err(SceneError::NotAnArray),
    }
}

/// The color at `p` (see `spec_color`).
/// The node must have the shape of a color (see `color_shape_ok`).
fn parse_color(t: &Vec<YamlToken>, p: usize, defs: &Vec<Definition>) -> (r: Result<
    Triple,
    SceneError,
>)
    requires
        color_shape_ok(t@, p as int),
    ensures
        r == spec_color(t@, p as int, defs_view(defs@)),
    decreases t@.len() - p,
{
    assert(p < t.len());
    match &t[p] {
        YamlToken::Hash(_) => {
            proof {
                lemma_lookup_after(t@, p as int, "color"@);
                lemma_lookup_after(t@, p as int, "value"@);
            }
            let c = lookup_key(t, p, "color");
            if !is_bad_value(t, c) {
                parse_color(t, c, defs)
            } else {
                let v = lookup_key(t, p, "value");
                parse_color(t, v, defs)
            }
        },
        YamlToken::Array(n) => parse_triple(t, p + 1, *n),
        YamlToken::Str(name) => match find_color_definition(defs, name) {
            Some(c) => Ok(c),
            None => Err(SceneError::UnknownColor),
        },
        _ => {
            proof {
                assert(false);
            }
            Err(SceneError::IncorrectColor)
        },
    }
}

/// The node at `p` has the shape of a color (see `color_shape_ok`).
fn has_color_shape(t: &Vec<YamlToken>, p: usize) -> (r: bool)
    ensures
        r == color_shape_ok(t@, p as int),
    decreases t@.len() - p,
{
    if p >= t.len() {
        return false;
    }
    match &t[p] {
        YamlToken::Hash(_) => {
            proof {
                lemma_lookup_after(t@, p as int, "color"@);
                lemma_lookup_after(t@, p as int, "value"@);
            }
            let c = lookup_key(t, p, "color");
            if !is_bad_value(t, c) {
                has_color_shape(t, c)
            } else {
                has_color_shape(t, lookup_key(t, p, "value"))
            }
        },
        YamlToken::Array(_) => true,
        YamlToken::Str(_) => true,
        _ => false,
    }
}

/// The color at `p`, or `IncorrectColor` where the node does not have the
/// shape of one.
fn read_color(t: &Vec<YamlToken>, p: usize, defs: &Vec<Definition>) -> (r: Result<
    Triple,
    SceneError,
>)
    ensures
        r == spec_color(t@, p as int, defs_view(defs@)),
{
    if has_color_shape(t, p) {
        parse_color(t, p, defs)
    } else {
        proof {
            lemma_color_shape(t@, p as int, defs_view(defs@));
        }
        Err(SceneError::IncorrectColor)
    }
}

/// Adds to `acc` the steps of the transformation item at `pos`.
fn transform_step(
    t: &Vec<YamlToken>,
    pos: usize,
    defs: &Vec<Definition>,
    acc: &mut Vec<TransformItem>,
) -> (r: Result<(), SceneError>)
    ensures
        match r {
            Ok(_) => spec_transform_step(t@, pos as int, defs_view(defs@), old(acc)@) == Ok::<
                Seq<TransformItem>,
                SceneError,
            >(final(acc)@),
            Err(e) => spec_transform_step(t@, pos as int, defs_view(defs@), old(acc)@) == Err::<
                Seq<TransformItem>,
                SceneError,
            >(e),
        },
{
    if pos >= t.len() {
        return Ok(());
    }
    match &t[pos] {
        YamlToken::Str(name) => {
            match find_transformation_definition(defs, name) {
                Some(k) => {
                    acc.push(TransformItem::Defined(name.clone(), k));
                    Ok(())
                },
                None => Err(SceneError::UnknownTransformation),
            }
        },
        YamlToken::Array(m) => {
            let m = *m;
            if m < 1 {
                return Err(SceneError::MissingElement);
            }
            if pos + 1 >= t.len() {
                return Err(SceneError::NotAString);
            }
            let op = match &t[pos + 1] {
                YamlToken::Str(op) => op,
                _ => {
                    return Err(SceneError::NotAString);
                },
            };
            let is_scale = text_equals(op, "scale");
            let is_translate = text_equals(op, "translate");
            let is_rotate_x = text_equals(op, "rotate-x");
            let is_rotate_y = text_equals(op, "rotate-y");
            let is_rotate_z = text_equals(op, "rotate-z");
            if is_scale || is_translate {
                if m < 4 {
                    return Err(SceneError::MissingElement);
                }
                let q = match end_of_node(t, pos + 1) {
                    Some(e) => e,
                    None => {
                        return Err(SceneError::Malformed);
                    },
                };
                let v = match parse_triple(t, q, 3) {
                    Ok(v) => v,
                    Err(e) => {
                        return Err(e);
                    },
                };
                if is_scale {
                    acc.push(TransformItem::Scale(v));
                } else {
                    acc.push(TransformItem::Translate(v));
                }
                Ok(())
            } else if is_rotate_x || is_rotate_y || is_rotate_z {
                if m < 2 {
                    return Err(SceneError::MissingElement);
                }
                let q = match end_of_node(t, pos + 1) {
                    Some(e) => e,
                    None => {
                        return Err(SceneError::Malformed);
                    },
                };
                let a = match parse_number(t, q) {
                    Ok(v) => v,
                    Err(e) => {
                        return Err(e);
                    },
                };
                if is_rotate_x {
                    acc.push(TransformItem::RotateX(a));
                } else if is_rotate_y {
                    acc.push(TransformItem::RotateY(a));
                } else {
                    acc.push(TransformItem::RotateZ(a));
                }
                Ok(())
            } else {
                Ok(())
            }
        },
        _ => Ok(()),
    }
}

/// The steps of the transformation at `p` (see `spec_transform`).
pub fn parse_transform(t: &Vec<YamlToken>, p: usize, defs: &Vec<Definition>) -> (r: Result<
    Vec<TransformItem>,
    SceneError,
>)
    ensures
        result_view(r) == spec_transform(t@, p as int, defs_view(defs@)),
{
    let count = items_of(t, p);
    let mut acc: Vec<TransformItem> = Vec::new();
    if count == 0 {
        return Ok(acc);
    }
    let ghost goal = spec_transform(t@, p as int, defs_view(defs@));
    assert(p < t.len());
    let mut pos = p + 1;
    let mut left = count;
    while left > 0
        invariant
            goal == spec_transform_items(t@, pos as int, left as int, defs_view(defs@), acc@),
            goal == spec_transform(t@, p as int, defs_view(defs@)),
        decreases left,
    {
        let ghost before = acc@;
        match transform_step(t, pos, defs, &mut acc) {
            Ok(_) => {},
            Err(e) => {
                return Err(e);
            },
        }
        pos = match end_of_node(t, pos) {
            Some(e) => e,
            None => {
                return Err(SceneError::Malformed);
            },
        };
        left = left - 1;
    }
    Ok(acc)
}


/// Which of the four pattern types `name` names.
fn pattern_kind_of(name: &String) -> (r: Option<PatternKind>)
    ensures
        r == pattern_kind(name@),
{
    if text_equals(name, "stripes") {
        Some(PatternKind::Stripes)
    } else if text_equals(name, "gradient") {
        Some(PatternKind::Gradient)
    } else if text_equals(name, "rings") {
        Some(PatternKind::Rings)
    } else if text_equals(name, "checkers") {
        Some(PatternKind::Checkers)
    } else {
        None
    }
}

/// The view of an optional list of transformation steps.
pub open spec fn steps_view(steps: Option<Vec<TransformItem>>) -> Option<Seq<TransformItem>> {
    match steps {
        Some(items) => Some(items@),
        None => None,
    }
}

/// The colors and transformation of the pattern at `p` (see `spec_pattern_parts`).
fn pattern_parts(t: &Vec<YamlToken>, p: usize, defs: &Vec<Definition>) -> (r: Result<
    (Triple, Triple, Option<Vec<TransformItem>>),
    SceneError,
>)
    ensures
        match r {
            Ok((a, b, steps)) => spec_pattern_parts(t@, p as int, defs_view(defs@)) == Ok::<
                (Triple, Triple, Option<Seq<TransformItem>>),
                SceneError,
            >((a, b, steps_view(steps))),
            Err(e) => spec_pattern_parts(t@, p as int, defs_view(defs@)) == Err::<
                (Triple, Triple, Option<Seq<TransformItem>>),
                SceneError,
            >(e),
        },
{
    let colors = lookup_key(t, p, "colors");
    if colors >= t.len() {
        return Err(SceneError::NotAnArray);
    }
    let n = match &t[colors] {
        YamlToken::Array(n) => *n,
        _ => {
            return Err(SceneError::NotAnArray);
        },
    };
    if n < 1 {
        return Err(SceneError::MissingElement);
    }
    let color_a = match read_color(t, colors + 1, defs) {
        Ok(v) => v,
        Err(e) => {
            return Err(e);
        },
    };
    if n < 2 {
        return Err(SceneError::MissingElement);
    }
    let q = match end_of_node(t, colors + 1) {
        Some(e) => e,
        None => {
            return Err(SceneError::Malformed);
        },
    };
    let color_b = match read_color(t, q, defs) {
        Ok(v) => v,
        Err(e) => {
            return Err(e);
        },
    };
    let tr = lookup_key(t, p, "transform");
    if is_bad_value(t, tr) {
        Ok((color_a, color_b, None))
    } else {
        match parse_transform(t, tr, defs) {
            Ok(items) => Ok((color_a, color_b, Some(items))),
            Err(e) => Err(e),
        }
    }
}

/// The type of the pattern at `p` is known (see `pattern_type_known`).
fn has_known_pattern_type(t: &Vec<YamlToken>, p: usize) -> (r: bool)
    ensures
        r == pattern_type_known(t@, p as int),
{
    let ty = lookup_key(t, p, "type");
    if ty >= t.len() {
        return false;
    }
    match &t[ty] {
        YamlToken::Str(s) => pattern_kind_of(s).is_some(),
        _ => false,
    }
}

/// The pattern at `p` (see `spec_pattern`); its type must be known.
fn parse_pattern(t: &Vec<YamlToken>, p: usize, defs: &Vec<Definition>) -> (r: Result<
    PatternSpec,
    SceneError,
>)
    requires
        pattern_type_known(t@, p as int),
    ensures
        result_view(r) == spec_pattern(t@, p as int, defs_view(defs@)),
{
    let (color_a, color_b, transformation) = match pattern_parts(t, p, defs) {
        Ok(parts) => parts,
        Err(e) => {
            return Err(e);
        },
    };
    let ty = lookup_key(t, p, "type");
    assert(ty < t.len());
    let kind = match &t[ty] {
        YamlToken::Str(s) => pattern_kind_of(s),
        _ => None,
    };
    match kind {
        Some(kind) => Ok(PatternSpec { kind, color_a, color_b, transformation }),
        None => {
            proof {
                assert(false);
            }
            Err(SceneError::IncorrectPatternType)
        },
    }
}

/// The pattern at `p`, or `IncorrectPatternType` where its colors and
/// transformation read and its type is not known.
fn read_pattern(t: &Vec<YamlToken>, p: usize, defs: &Vec<Definition>) -> (r: Result<
    PatternSpec,
    SceneError,
>)
    ensures
        result_view(r) == spec_pattern(t@, p as int, defs_view(defs@)),
{
    if has_known_pattern_type(t, p) {
        parse_pattern(t, p, defs)
    } else {
        match pattern_parts(t, p, defs) {
            Ok(_) => Err(SceneError::IncorrectPatternType),
            Err(e) => Err(e),
        }
    }
}

/// `current`, or the number under `key` where `node` has one.
fn override_number_at(t: &Vec<YamlToken>, node: usize, key: &str, current: Option<Number>) -> (r:
    Result<Option<Number>, SceneError>)
    ensures
        r == override_number(t@, node as int, key@, current),
{
    if is_present(t, node, key) {
        match parse_number(t, lookup_key(t, node, key)) {
            Ok(v) => Ok(Some(v)),
            Err(e) => Err(e),
        }
    } else {
        Ok(current)
    }
}

/// `base` with its color and pattern replaced by those that `node` gives.
fn parse_material_looks(
    t: &Vec<YamlToken>,
    node: usize,
    defs: &Vec<Definition>,
    base: MaterialSpec,
) -> (r: Result<MaterialSpec, SceneError>)
    ensures
        result_view(r) == spec_material_looks(t@, node as int, defs_view(defs@), base@),
{
    let color = if is_present(t, node, "color") {
        match read_color(t, lookup_key(t, node, "color"), defs) {
            Ok(c) => Some(c),
            Err(e) => {
                return Err(e);
            },
        }
    } else {
        base.color
    };
    let pattern = if is_present(t, node, "pattern") {
        match read_pattern(t, lookup_key(t, node, "pattern"), defs) {
            Ok(p) => Some(p),
            Err(e) => {
                return Err(e);
            },
        }
    } else {
        base.pattern
    };
    Ok(MaterialSpec { color, pattern, ..base })
}

/// `base` with its numeric properties replaced by those that `node` gives.
fn parse_material_numbers(t: &Vec<YamlToken>, node: usize, base: MaterialSpec) -> (r: Result<
    MaterialSpec,
    SceneError,
>)
    ensures
        result_view(r) == spec_material_numbers(t@, node as int, base@),
{
    let ambient = match override_number_at(t, node, "ambient", base.ambient) {
        Ok(v) => v,
        Err(e) => {
            return Err(e);
        },
    };
    let diffuse = match override_number_at(t, node, "diffuse", base.diffuse) {
        Ok(v) => v,
        Err(e) => {
            return Err(e);
        },
    };
    let specular = match override_number_at(t, node, "specular", base.specular) {
        Ok(v) => v,
        Err(e) => {
            return Err(e);
        },
    };
    let shininess = match override_number_at(t, node, "shininess", base.shininess) {
        Ok(v) => v,
        Err(e) => {
            return Err(e);
        },
    };
    let reflective = match override_number_at(t, node, "reflective", base.reflective) {
        Ok(v) => v,
        Err(e) => {
            return Err(e);
        },
    };
    let transparency = match override_number_at(t, node, "transparency", base.transparency) {
        Ok(v) => v,
        Err(e) => {
            return Err(e);
        },
    };
    let refractive_index = match override_number_at(
        t,
        node,
        "refractive-index",
        base.refractive_index,
    ) {
        Ok(v) => v,
        Err(e) => {
            return Err(e);
        },
    };
    Ok(
        MaterialSpec {
            ambient,
            diffuse,
            specular,
            shininess,
            reflective,
            transparency,
            refractive_index,
            ..base
        },
    )
}

/// `base` with every property that `node` gives replaced by it.
fn parse_material_fields(
    t: &Vec<YamlToken>,
    node: usize,
    defs: &Vec<Definition>,
    base: MaterialSpec,
) -> (r: Result<MaterialSpec, SceneError>)
    ensures
        result_view(r) == spec_material_fields(t@, node as int, defs_view(defs@), base@),
{
    match parse_material_looks(t, node, defs, base) {
        Ok(m) => parse_material_numbers(t, node, m),
        Err(e) => Err(e),
    }
}

/// The material that `holder` extends (see `spec_base_material`).
fn parse_base_material(t: &Vec<YamlToken>, holder: usize, defs: &Vec<Definition>) -> (r: Result<
    MaterialSpec,
    SceneError,
>)
    ensures
        result_view(r) == spec_base_material(t@, holder as int, defs_view(defs@)),
{
    let e = lookup_key(t, holder, "extend");
    if e >= t.len() {
        return Ok(MaterialSpec::default_spec());
    }
    match &t[e] {
        YamlToken::BadValue => Ok(MaterialSpec::default_spec()),
        YamlToken::Str(name) => match find_material_definition(defs, name) {
            Some(m) => Ok(m),
            None => Err(SceneError::UnknownMaterial),
        },
        _ => Err(SceneError::NotAString),
    }
}

/// The material at `p` (see `spec_material`).
pub fn parse_material(t: &Vec<YamlToken>, p: usize, defs: &Vec<Definition>) -> (r: Result<
    MaterialSpec,
    SceneError,
>)
    ensures
        result_view(r) == spec_material(t@, p as int, defs_view(defs@)),
{
    if p < t.len() {
        if let YamlToken::Str(name) = &t[p] {
            return match find_material_definition(defs, name) {
                Some(m) => Ok(m),
                None => Err(SceneError::UnknownMaterial),
            };
        }
    }
    match parse_base_material(t, p, defs) {
        Ok(base) => parse_material_fields(t, p, defs, base),
        Err(e) => Err(e),
    }
}

/// The material of the definition at `entry` (see `spec_material_definition`).
pub fn parse_material_definition(t: &Vec<YamlToken>, entry: usize, defs: &Vec<Definition>) -> (r:
    Result<MaterialSpec, SceneError>)
    ensures
        result_view(r) == spec_material_definition(t@, entry as int, defs_view(defs@)),
{
    match parse_base_material(t, entry, defs) {
        Ok(base) => parse_material_fields(t, lookup_key(t, entry, "value"), defs, base),
        Err(e) => Err(e),
    }
}


proof fn lemma_defs_push(defs: Seq<Definition>, d: Definition)
    ensures
        defs_view(defs.push(d)) == defs_view(defs).push(d@),
{
    assert(defs_view(defs.push(d)) =~= defs_view(defs).push(d@));
}

/// Adds to `defs` what the entry at `entry` defines (see `definition_step`).
pub fn definition_step_at(t: &Vec<YamlToken>, entry: usize, defs: &mut Vec<Definition>) -> (r: Result<
    (),
    SceneError,
>)
    ensures
        match r {
            Ok(_) => definition_step(t@, entry as int, defs_view(old(defs)@)) == Ok::<
                Seq<DefinitionView>,
                SceneError,
            >(defs_view(final(defs)@)),
            Err(e) => definition_step(t@, entry as int, defs_view(old(defs)@)) == Err::<
                Seq<DefinitionView>,
                SceneError,
            >(e),
        },
        r is Err ==> final(defs)@ == old(defs)@,
{
    let d = lookup_key(t, entry, "define");
    if d >= t.len() {
        return Ok(());
    }
    let name = match &t[d] {
        YamlToken::Str(name) => name,
        _ => {
            return Ok(());
        },
    };
    if ends_with(name, "-color") {
        match read_color(t, entry, defs) {
            Ok(c) => {
                let definition = Definition::Color(name.clone(), c);
                proof {
                    lemma_defs_push(defs@, definition);
                }
                defs.push(definition);
                Ok(())
            },
            Err(e) => Err(e),
        }
    } else if ends_with(name, "-material") {
        match parse_material_definition(t, entry, defs) {
            Ok(m) => {
                let definition = Definition::Material(name.clone(), m);
                proof {
                    lemma_defs_push(defs@, definition);
                }
                defs.push(definition);
                Ok(())
            },
            Err(e) => Err(e),
        }
    } else if ends_with(name, "-transform") || ends_with(name, "-object") {
        match parse_transform(t, lookup_key(t, entry, "value"), defs) {
            Ok(items) => {
                let definition = Definition::Transformation(name.clone(), items);
                proof {
                    lemma_defs_push(defs@, definition);
                }
                defs.push(definition);
                Ok(())
            },
            Err(e) => Err(e),
        }
    } else {
        Ok(())
    }
}

/// The definitions of the `count` entries from `first`, in order.
fn process_definitions(t: &Vec<YamlToken>, first: usize, count: usize) -> (r: Result<
    Vec<Definition>,
    SceneError,
>)
    ensures
        match r {
            Ok(defs) => spec_definitions(t@, first as int, count as int, Seq::empty()) == Ok::<
                Seq<DefinitionView>,
                SceneError,
            >(defs_view(defs@)),
            Err(e) => spec_definitions(t@, first as int, count as int, Seq::empty()) == Err::<
                Seq<DefinitionView>,
                SceneError,
            >(e),
        },
{
    let mut defs: Vec<Definition> = Vec::new();
    assert(defs_view(defs@) =~= Seq::<DefinitionView>::empty());
    let ghost goal = spec_definitions(t@, first as int, count as int, Seq::empty());
    let mut pos = first;
    let mut left = count;
    while left > 0
        invariant
            goal == spec_definitions(t@, pos as int, left as int, defs_view(defs@)),
            goal == spec_definitions(t@, first as int, count as int, Seq::empty()),
        decreases left,
    {
        match definition_step_at(t, pos, &mut defs) {
            Ok(_) => {},
            Err(e) => {
                return Err(e);
            },
        }
        pos = match end_of_node(t, pos) {
            Some(e) => e,
            None => {
                return Err(SceneError::Malformed);
            },
        };
        left = left - 1;
    }
    Ok(defs)
}

/// The camera that the entry at `entry` adds.
fn parse_camera(t: &Vec<YamlToken>, entry: usize) -> (r: Result<CameraSpec, SceneError>)
    ensures
        r == spec_camera(t@, entry as int),
{
    let width = match parse_number(t, lookup_key(t, entry, "width")) {
        Ok(v) => v,
        Err(e) => {
            return Err(e);
        },
    };
    let height = match parse_number(t, lookup_key(t, entry, "height")) {
        Ok(v) => v,
        Err(e) => {
            return Err(e);
        },
    };
    let field_of_view = match parse_number(t, lookup_key(t, entry, "field-of-view")) {
        Ok(v) => v,
        Err(e) => {
            return Err(e);
        },
    };
    let from = match parse_list_triple(t, lookup_key(t, entry, "from")) {
        Ok(v) => v,
        Err(e) => {
            return Err(e);
        },
    };
    let to = match parse_list_triple(t, lookup_key(t, entry, "to")) {
        Ok(v) => v,
        Err(e) => {
            return Err(e);
        },
    };
    let up = match parse_list_triple(t, lookup_key(t, entry, "up")) {
        Ok(v) => v,
        Err(e) => {
            return Err(e);
        },
    };
    Ok(CameraSpec { width, height, field_of_view, from, to, up })
}

/// The light that the entry at `entry` adds.
fn parse_light(t: &Vec<YamlToken>, entry: usize) -> (r: Result<LightSpec, SceneError>)
    ensures
        r == spec_light(t@, entry as int),
{
    let position = match parse_list_triple(t, lookup_key(t, entry, "at")) {
        Ok(v) => v,
        Err(e) => {
            return Err(e);
        },
    };
    let intensity = match parse_list_triple(t, lookup_key(t, entry, "intensity")) {
        Ok(v) => v,
        Err(e) => {
            return Err(e);
        },
    };
    Ok(LightSpec { position, intensity })
}

/// Which shape `name` names.
fn shape_kind_of(name: &String) -> (r: Option<ShapeKind>)
    ensures
        r == shape_kind(name@),
{
    if text_equals(name, "plane") {
        Some(ShapeKind::Plane)
    } else if text_equals(name, "sphere") {
        Some(ShapeKind::Sphere)
    } else if text_equals(name, "cube") {
        Some(ShapeKind::Cube)
    } else if text_equals(name, "cone") {
        Some(ShapeKind::Cone)
    } else if text_equals(name, "cylinder") {
        Some(ShapeKind::Cylinder)
    } else {
        None
    }
}

/// The shape of kind `kind` that the entry at `entry` adds.
fn parse_shape(t: &Vec<YamlToken>, entry: usize, defs: &Vec<Definition>, kind: ShapeKind) -> (r:
    Result<ShapeSpec, SceneError>)
    ensures
        result_view(r) == spec_shape(t@, entry as int, defs_view(defs@), kind),
{
    let material = match parse_material(t, lookup_key(t, entry, "material"), defs) {
        Ok(v) => v,
        Err(e) => {
            return Err(e);
        },
    };
    let transformation = match parse_transform(t, lookup_key(t, entry, "transform"), defs) {
        Ok(v) => v,
        Err(e) => {
            return Err(e);
        },
    };
    Ok(ShapeSpec { kind, material, transformation })
}

proof fn lemma_shapes_push(shapes: Seq<ShapeSpec>, s: ShapeSpec)
    ensures
        shapes.push(s).map_values(|x: ShapeSpec| x@) == shapes.map_values(|x: ShapeSpec| x@).push(
            s@,
        ),
{
    assert(shapes.push(s).map_values(|x: ShapeSpec| x@) =~= shapes.map_values(|x: ShapeSpec| x@).push(
        s@,
    ));
}

/// Adds to `scene` what the entry at `entry` adds (see `scene_step`).
fn scene_step_at(t: &Vec<YamlToken>, entry: usize, scene: &mut SceneDescription) -> (r: Result<
    (),
    SceneError,
>)
    ensures
        match r {
            Ok(_) => scene_step(t@, entry as int, old(scene)@) == Ok::<SceneView, SceneError>(
                final(scene)@,
            ),
            Err(e) => scene_step(t@, entry as int, old(scene)@) == Err::<SceneView, SceneError>(e),
        },
{
    let a = lookup_key(t, entry, "add");
    if a >= t.len() {
        return Ok(());
    }
    let name = match &t[a] {
        YamlToken::Str(name) => name,
        _ => {
            return Ok(());
        },
    };
    if text_equals(name, "camera") {
        match parse_camera(t, entry) {
            Ok(camera) => {
                scene.camera = Some(camera);
                Ok(())
            },
            Err(e) => Err(e),
        }
    } else if text_equals(name, "light") {
        match parse_light(t, entry) {
            Ok(light) => {
                scene.lights.push(light);
                Ok(())
            },
            Err(e) => Err(e),
        }
    } else {
        match shape_kind_of(name) {
            Some(kind) => match parse_shape(t, entry, &scene.definitions, kind) {
                Ok(shape) => {
                    proof {
                        lemma_shapes_push(scene.shapes@, shape);
                    }
                    scene.shapes.push(shape);
                    Ok(())
                },
                Err(e) => Err(e),
            },
            None => Ok(()),
        }
    }
}

/// The scene that the token stream `t` describes (see `describe`).
pub fn describe_tokens(t: &Vec<YamlToken>) -> (r: Result<SceneDescription, SceneError>)
    ensures
        result_view(r) == describe(t@),
{
    if t.len() == 0 {
        return Err(SceneError::Malformed);
    }
    match &t[0] {
        YamlToken::Array(k) => {
            if *k != 1 {
                return Err(SceneError::DocumentCount);
            }
        },
        _ => {
            return Err(SceneError::Malformed);
        },
    }
    let n = items_of(t, 1);
    let definitions = match process_definitions(t, 2, n) {
        Ok(d) => d,
        Err(e) => {
            return Err(e);
        },
    };
    let mut scene = SceneDescription {
        definitions,
        camera: None,
        lights: Vec::new(),
        shapes: Vec::new(),
    };
    assert(scene@.shapes =~= Seq::<ShapeView>::empty());
    let ghost goal = describe(t@);
    let mut pos: usize = 2;
    let mut left = n;
    while left > 0
        invariant
            goal == spec_scene(t@, pos as int, left as int, scene@),
            goal == describe(t@),
        decreases left,
    {
        match scene_step_at(t, pos, &mut scene) {
            Ok(_) => {},
            Err(e) => {
                return Err(e);
            },
        }
        pos = match end_of_node(t, pos) {
            Some(e) => e,
            None => {
                return Err(SceneError::Malformed);
            },
        };
        left = left - 1;
    }
    Ok(scene)
}

/// Reads the scene description written in YAML in `text`.
pub fn parse_scene_text(text: &str) -> (r: Result<SceneDescription, SceneError>)
    ensures
        match yaml_token_stream(text@) {
            Some(t) => result_view(r) == describe(t),
            None => r == Err::<SceneDescription, SceneError>(SceneError::Syntax),
        },
{
    match tokenize(text) {
        Ok(tokens) => describe_tokens(&tokens),
        Err(_) => Err(SceneError::Syntax),
    }
}


/// A material that extends another takes every numeric property that it
/// gives and keeps every other one of the material it extends.
pub proof fn lemma_extension_overrides(
    t: Seq<YamlToken>,
    node: int,
    defs: Seq<DefinitionView>,
    base: MaterialView,
)
    ensures
        spec_material_fields(t, node, defs, base) matches Ok(m) ==> {
            &&& m.ambient == if present(t, node, "ambient"@) {
                Some(spec_number(t, lookup(t, node, "ambient"@))->Ok_0)
            } else {
                base.ambient
            }
            &&& m.diffuse == if present(t, node, "diffuse"@) {
                Some(spec_number(t, lookup(t, node, "diffuse"@))->Ok_0)
            } else {
                base.diffuse
            }
            &&& m.specular == if present(t, node, "specular"@) {
                Some(spec_number(t, lookup(t, node, "specular"@))->Ok_0)
            } else {
                base.specular
            }
            &&& m.reflective == if present(t, node, "reflective"@) {
                Some(spec_number(t, lookup(t, node, "reflective"@))->Ok_0)
            } else {
                base.reflective
            }
            &&& m.transparency == if present(t, node, "transparency"@) {
                Some(spec_number(t, lookup(t, node, "transparency"@))->Ok_0)
            } else {
                base.transparency
            }
            &&& m.shininess == if present(t, node, "shininess"@) {
                Some(spec_number(t, lookup(t, node, "shininess"@))->Ok_0)
            } else {
                base.shininess
            }
            &&& m.refractive_index == if present(t, node, "refractive-index"@) {
                Some(spec_number(t, lookup(t, node, "refractive-index"@))->Ok_0)
            } else {
                base.refractive_index
            }
            &&& !present(t, node, "color"@) ==> m.color == base.color
            &&& !present(t, node, "pattern"@) ==> m.pattern == base.pattern
        },
{
}

/// A material written in place, as a mapping, reads as a material definition
/// whose `extend` is the mapping's and whose `value` is the mapping itself; a
/// material written as a name is the latest material defined under it.
pub proof fn lemma_material_reads_as_definition(
    t: Seq<YamlToken>,
    p: int,
    entry: int,
    defs: Seq<DefinitionView>,
)
    requires
        lookup(t, entry, "value"@) == p,
        tok(t, lookup(t, entry, "extend"@)) == tok(t, lookup(t, p, "extend"@)),
    ensures
        !(tok(t, p) is Str) ==> spec_material(t, p, defs) == spec_material_definition(t, entry, defs),
        tok(t, p) matches YamlToken::Str(name) ==> spec_material(t, p, defs) == match find_material(
            defs,
            name@,
        ) {
            Some(m) => Ok::<MaterialView, SceneError>(m),
            None => Err(SceneError::UnknownMaterial),
        },
{
}

/// A transformation definition holds exactly the steps that its `value` gives
/// where the same node is read as the `transform` of a shape.
pub proof fn lemma_transformation_definition_reads_as_transform(
    t: Seq<YamlToken>,
    entry: int,
    shape: int,
    defs: Seq<DefinitionView>,
    name: String,
    kind: ShapeKind,
)
    requires
        tok(t, lookup(t, entry, "define"@)) == YamlToken::Str(name),
        !has_suffix(name@, "-color"@),
        !has_suffix(name@, "-material"@),
        has_suffix(name@, "-transform"@) || has_suffix(name@, "-object"@),
        lookup(t, shape, "transform"@) == lookup(t, entry, "value"@),
    ensures
        definition_step(t, entry, defs) == match spec_transform(t, lookup(t, entry, "value"@), defs) {
            Ok(items) => Ok::<Seq<DefinitionView>, SceneError>(
                defs.push(DefinitionView::Transformation(name, items)),
            ),
            Err(e) => Err(e),
        },
        spec_shape(t, shape, defs, kind) matches Ok(v) ==> definition_step(t, entry, defs) == Ok::<
            Seq<DefinitionView>,
            SceneError,
        >(defs.push(DefinitionView::Transformation(name, v.transformation))),
{
}

/// A named transformation step refers to the latest transformation
/// definition of that name: the definition at the position found has the
/// name, and none after it does; where none has the name, none is found.
pub proof fn lemma_found_transformation(defs: Seq<DefinitionView>, name: Seq<char>)
    ensures
        find_transformation(defs, name) matches Some(k) ==> {
            &&& 0 <= k < defs.len()
            &&& defs[k] matches DefinitionView::Transformation(n, _) && n@ == name
            &&& forall|j: int|
                k < j < defs.len() ==> !(#[trigger] defs[j] matches DefinitionView::Transformation(
                    n,
                    _,
                ) && n@ == name)
        },
        find_transformation(defs, name) is None ==> forall|j: int|
            0 <= j < defs.len() ==> !(#[trigger] defs[j] matches DefinitionView::Transformation(
                n,
                _,
            ) && n@ == name),
    decreases defs.len(),
{
    if defs.len() > 0 {
        let rest = defs.drop_last();
        lemma_found_transformation(rest, name);
        assert forall|j: int| 0 <= j < rest.len() implies #[trigger] defs[j] == rest[j] by {}
    }
}

/// The camera reads each of its properties from its own key: the size from
/// `width` and `height`, the field of view from `field-of-view`, and the
/// points from `from`, `to` and `up`; it is read where all six are.
pub proof fn lemma_camera_reads_its_keys(t: Seq<YamlToken>, entry: int)
    ensures
        spec_camera(t, entry) matches Ok(c) ==> {
            &&& Ok::<Number, SceneError>(c.width) == spec_number(t, lookup(t, entry, "width"@))
            &&& Ok::<Number, SceneError>(c.height) == spec_number(t, lookup(t, entry, "height"@))
            &&& Ok::<Number, SceneError>(c.field_of_view) == spec_number(
                t,
                lookup(t, entry, "field-of-view"@),
            )
            &&& Ok::<Triple, SceneError>(c.from) == spec_list_triple(t, lookup(t, entry, "from"@))
            &&& Ok::<Triple, SceneError>(c.to) == spec_list_triple(t, lookup(t, entry, "to"@))
            &&& Ok::<Triple, SceneError>(c.up) == spec_list_triple(t, lookup(t, entry, "up"@))
        },
        spec_camera(t, entry) is Ok <==> {
            &&& spec_number(t, lookup(t, entry, "width"@)) is Ok
            &&& spec_number(t, lookup(t, entry, "height"@)) is Ok
            &&& spec_number(t, lookup(t, entry, "field-of-view"@)) is Ok
            &&& spec_list_triple(t, lookup(t, entry, "from"@)) is Ok
            &&& spec_list_triple(t, lookup(t, entry, "to"@)) is Ok
            &&& spec_list_triple(t, lookup(t, entry, "up"@)) is Ok
        },
{
}

/// A light is placed at the point under `at` and shines with the color under
/// `intensity`; it is read where both are.
pub proof fn lemma_light_reads_its_keys(t: Seq<YamlToken>, entry: int)
    ensures
        spec_light(t, entry) matches Ok(l) ==> {
            &&& Ok::<Triple, SceneError>(l.position) == spec_list_triple(t, lookup(t, entry, "at"@))
            &&& Ok::<Triple, SceneError>(l.intensity) == spec_list_triple(
                t,
                lookup(t, entry, "intensity"@),
            )
        },
        spec_light(t, entry) is Ok <==> {
            &&& spec_list_triple(t, lookup(t, entry, "at"@)) is Ok
            &&& spec_list_triple(t, lookup(t, entry, "intensity"@)) is Ok
        },
{
}

/// Three numbers read from consecutive nodes are those nodes' numbers, in
/// their order.
pub proof fn lemma_triple_in_order(t: Seq<YamlToken>, first: int, available: int)
    ensures
        spec_triple(t, first, available) matches Ok(v) ==> {
            let second = node_end(t, first)->Some_0;
            let third = node_end(t, second)->Some_0;
            &&& available >= 3
            &&& node_end(t, first) is Some
            &&& node_end(t, second) is Some
            &&& Ok::<Number, SceneError>(v.first) == spec_number(t, first)
            &&& Ok::<Number, SceneError>(v.second) == spec_number(t, second)
            &&& Ok::<Number, SceneError>(v.third) == spec_number(t, third)
        },
{
}

/// A list `[op, ...]` in a transformation adds one step after those before
/// it: for `scale` and `translate` the three numbers that follow the name, in
/// their order; for `rotate-x`, `rotate-y` and `rotate-z` a rotation about
/// that axis by the number that follows the name.
pub proof fn lemma_transform_step_reads_its_numbers(
    t: Seq<YamlToken>,
    pos: int,
    defs: Seq<DefinitionView>,
    acc: Seq<TransformItem>,
)
    requires
        tok(t, pos) is Array,
        tok(t, pos + 1) is Str,
    ensures
        spec_transform_step(t, pos, defs, acc) matches Ok(r) ==> {
            let op = tok(t, pos + 1)->Str_0@;
            let x = node_end(t, pos + 1)->Some_0;
            let y = node_end(t, x)->Some_0;
            let z = node_end(t, y)->Some_0;
            &&& (op == "scale"@ || op == "translate"@) ==> {
                &&& r.len() == acc.len() + 1
                &&& r.take(acc.len() as int) == acc
                &&& spec_number(t, x) is Ok && spec_number(t, y) is Ok && spec_number(t, z) is Ok
                &&& r.last() == if op == "scale"@ {
                    TransformItem::Scale(
                        Triple {
                            first: spec_number(t, x)->Ok_0,
                            second: spec_number(t, y)->Ok_0,
                            third: spec_number(t, z)->Ok_0,
                        },
                    )
                } else {
                    TransformItem::Translate(
                        Triple {
                            first: spec_number(t, x)->Ok_0,
                            second: spec_number(t, y)->Ok_0,
                            third: spec_number(t, z)->Ok_0,
                        },
                    )
                }
            }
            &&& (op == "rotate-x"@ || op == "rotate-y"@ || op == "rotate-z"@) ==> {
                &&& r.len() == acc.len() + 1
                &&& r.take(acc.len() as int) == acc
                &&& spec_number(t, x) is Ok
                &&& r.last() == if op == "rotate-x"@ {
                    TransformItem::RotateX(spec_number(t, x)->Ok_0)
                } else if op == "rotate-y"@ {
                    TransformItem::RotateY(spec_number(t, x)->Ok_0)
                } else {
                    TransformItem::RotateZ(spec_number(t, x)->Ok_0)
                }
            }
            &&& !(op == "scale"@ || op == "translate"@ || op == "rotate-x"@ || op == "rotate-y"@
                || op == "rotate-z"@) ==> r == acc
        },
{
    reveal_strlit("scale");
    reveal_strlit("translate");
    reveal_strlit("rotate-x");
    reveal_strlit("rotate-y");
    reveal_strlit("rotate-z");
    if let Ok(r) = spec_transform_step(t, pos, defs, acc) {
        let op = tok(t, pos + 1)->Str_0@;
        let x = node_end(t, pos + 1)->Some_0;
        let y = node_end(t, x)->Some_0;
        let z = node_end(t, y)->Some_0;
        if op == "scale"@ || op == "translate"@ {
            lemma_triple_in_order(t, x, 3);
            assert(!(op == "rotate-x"@ || op == "rotate-y"@ || op == "rotate-z"@)) by {
                if op == "scale"@ {
                    assert(op[0] == 's');
                } else {
                    assert(op[0] == 't');
                }
            }
            let v = spec_triple(t, x, 3)->Ok_0;
            assert(r == acc.push(if op == "scale"@ { TransformItem::Scale(v) } else { TransformItem::Translate(v) }));
            assert(r.take(acc.len() as int) =~= acc);
            assert(v == Triple { first: spec_number(t, x)->Ok_0, second: spec_number(t, y)->Ok_0, third: spec_number(t, z)->Ok_0 });
        } else if op == "rotate-x"@ || op == "rotate-y"@ || op == "rotate-z"@ {
            assert(r == acc.push(rotation(op, spec_number(t, x)->Ok_0)));
            assert(r.last() == rotation(op, spec_number(t, x)->Ok_0));
            assert(r.take(acc.len() as int) =~= acc);
        } else {
            assert(r == acc);
        }
    }
}

/// A color is read from a list of three numbers, from the latest color
/// defined under a name, or from a mapping's `color`, where it has one, else
/// its `value`.
pub proof fn lemma_color_reads_its_keys(t: Seq<YamlToken>, p: int, defs: Seq<DefinitionView>)
    ensures
        tok(t, p) is Array ==> spec_color(t, p, defs) == spec_list_triple(t, p),
        tok(t, p) matches YamlToken::Str(name) ==> spec_color(t, p, defs) == match find_color(
            defs,
            name@,
        ) {
            Some(c) => Ok::<Triple, SceneError>(c),
            None => Err(SceneError::UnknownColor),
        },
        tok(t, p) is Hash && present(t, p, "color"@) ==> spec_color(t, p, defs) == spec_color(
            t,
            lookup(t, p, "color"@),
            defs,
        ),
        tok(t, p) is Hash && !present(t, p, "color"@) ==> spec_color(t, p, defs) == spec_color(
            t,
            lookup(t, p, "value"@),
            defs,
        ),
{
}

/// A pattern takes its two colors from the first two items of its `colors`
/// list, its kind from its `type`, and its transformation from its
/// `transform` where it has one.
pub proof fn lemma_pattern_reads_its_keys(t: Seq<YamlToken>, p: int, defs: Seq<DefinitionView>)
    ensures
        spec_pattern(t, p, defs) matches Ok(v) ==> {
            let colors = lookup(t, p, "colors"@);
            let tr = lookup(t, p, "transform"@);
            &&& tok(t, colors) matches YamlToken::Array(n) && n >= 2
            &&& node_end(t, colors + 1) is Some
            &&& Ok::<Triple, SceneError>(v.color_a) == spec_color(t, colors + 1, defs)
            &&& Ok::<Triple, SceneError>(v.color_b) == spec_color(
                t,
                node_end(t, colors + 1)->Some_0,
                defs,
            )
            &&& tok(t, lookup(t, p, "type"@)) matches YamlToken::Str(s) && pattern_kind(s@) == Some(
                v.kind,
            )
            &&& v.transformation == if tok(t, tr) is BadValue {
                None
            } else {
                Some(spec_transform(t, tr, defs)->Ok_0)
            }
            &&& !(tok(t, tr) is BadValue) ==> spec_transform(t, tr, defs) is Ok
        },
{
}

/// A shape takes its material from its `material` and its steps from its
/// `transform`.
pub proof fn lemma_shape_reads_its_keys(
    t: Seq<YamlToken>,
    entry: int,
    defs: Seq<DefinitionView>,
    kind: ShapeKind,
)
    ensures
        spec_shape(t, entry, defs, kind) matches Ok(v) ==> {
            &&& v.kind == kind
            &&& Ok::<MaterialView, SceneError>(v.material) == spec_material(
                t,
                lookup(t, entry, "material"@),
                defs,
            )
            &&& Ok::<Seq<TransformItem>, SceneError>(v.transformation) == spec_transform(
                t,
                lookup(t, entry, "transform"@),
                defs,
            )
        },
{
}

/// An entry adds at most one thing to a scene and keeps the rest: a camera
/// replaces the camera, a light or a shape goes after those before it, and
/// the definitions stay as they are.
pub proof fn lemma_scene_step_adds_one(t: Seq<YamlToken>, entry: int, scene: SceneView)
    ensures
        scene_step(t, entry, scene) matches Ok(next) ==> {
            &&& next.definitions == scene.definitions
            &&& (next.camera == scene.camera || next.camera == Some(spec_camera(t, entry)->Ok_0))
            &&& (next.lights == scene.lights || next.lights == scene.lights.push(
                spec_light(t, entry)->Ok_0,
            ))
            &&& (next.shapes == scene.shapes || (next.shapes.len() == scene.shapes.len() + 1
                && next.shapes.drop_last() == scene.shapes))
            &&& (next.camera == scene.camera && next.lights == scene.lights)
                || (next.camera == scene.camera && next.shapes == scene.shapes)
                || (next.lights == scene.lights && next.shapes == scene.shapes)
        },
{
    if let Ok(next) = scene_step(t, entry, scene) {
        if next.shapes != scene.shapes {
            assert(next.shapes.drop_last() =~= scene.shapes);
        }
    }
}

/// A definition replaces an earlier one of the same kind and name, and
/// leaves those of other names as they were.
pub proof fn lemma_latest_definition_wins(
    defs: Seq<DefinitionView>,
    name: String,
    color: Triple,
    material: MaterialView,
    other: Seq<char>,
)
    requires
        other != name@,
    ensures
        find_color(defs.push(DefinitionView::Color(name, color)), name@) == Some(color),
        find_color(defs.push(DefinitionView::Color(name, color)), other) == find_color(defs, other),
        find_material(defs.push(DefinitionView::Material(name, material)), name@) == Some(material),
        find_material(defs.push(DefinitionView::Material(name, material)), other) == find_material(
            defs,
            other,
        ),
        find_color(defs.push(DefinitionView::Material(name, material)), other) == find_color(
            defs,
            other,
        ),
{
    assert(defs.push(DefinitionView::Color(name, color)).drop_last() == defs);
    assert(defs.push(DefinitionView::Material(name, material)).drop_last() == defs);
}

} // verus!
