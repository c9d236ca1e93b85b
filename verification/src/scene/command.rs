//! The commands of a scene script and how a statement reads as one.

use crate::geometry::Axis;
use crate::material::MaterialKind;
use crate::scene::lexer::{chars_of, texts, Token};
use crate::scene::number::{quantity, quantity_of, Quantity};
use vstd::prelude::*;
use vstd::slice::{slice_subrange, slice_to_vec};

verus! {

/// Three quantities: a point, a direction or a colour.
#[derive(Debug, PartialEq, Eq)]
pub struct Triple<T> {
    pub x: Quantity<T>,
    pub y: Quantity<T>,
    pub z: Quantity<T>,
}

/// The two ends of an interval along one coordinate.
#[derive(Debug, PartialEq, Eq)]
pub struct Bounds<T> {
    pub low: Quantity<T>,
    pub high: Quantity<T>,
}

/// A command that changes the scene. `T` is the type of a field's text and `L`
/// that of a list of quantities.
#[derive(Debug, PartialEq, Eq)]
pub enum CommandOf<T, L> {
    /// Places the camera at `eye`, looking at `target`, with a vertical field
    /// of view of `fov` degrees. `spare` holds the quantities that follow.
    Camera { eye: Triple<T>, target: Triple<T>, fov: Quantity<T>, spare: L },
    /// Defines the material `name`, replacing an earlier one of that name.
    Material { name: T, kind: MaterialKind, colour: Triple<T>, parameter: Option<Quantity<T>> },
    /// Adds a sphere. `material` is the position, among the commands executed
    /// so far, of the definition of its material.
    Sphere { material: usize, center: Triple<T>, radius: Quantity<T> },
    /// Adds an axis-aligned rectangle at `depth` along the coordinate that
    /// `axis` leaves out. `material` is as for a sphere.
    Rect { material: usize, axis: Axis, first: Bounds<T>, second: Bounds<T>, depth: T },
}

/// A command as a program holds it.
pub type Command = CommandOf<Token, Vec<Quantity<Token>>>;

/// A command as a contract speaks of it.
pub type CommandText = CommandOf<Seq<char>, Seq<Quantity<Seq<char>>>>;

/// Why a statement is not a command.
#[derive(Debug, Clone, Copy, PartialEq, Eq, Structural)]
pub enum Fault {
    /// The first word is no command.
    UnknownCommand,
    /// The word after `OBJ` names no shape.
    UnknownObject,
    /// The axes of a rectangle are none of `xy`, `xz` and `yz`.
    UnknownAxis,
    /// The kind of a material is none of the four kinds.
    UnknownMaterial,
    /// A shape uses a material that no earlier command defined.
    UndefinedMaterial,
    /// The statement has too few words.
    MissingField,
    /// The word after `~` is no count.
    BadCount,
    /// A quantity has more than two bounds.
    BadRange,
}

impl View for Triple<Token> {
    type V = Triple<Seq<char>>;

    open spec fn view(&self) -> Triple<Seq<char>> {
        Triple { x: self.x@, y: self.y@, z: self.z@ }
    }
}

impl View for Bounds<Token> {
    type V = Bounds<Seq<char>>;

    open spec fn view(&self) -> Bounds<Seq<char>> {
        Bounds { low: self.low@, high: self.high@ }
    }
}

/// The views of a list of quantities.
pub open spec fn quantity_views(qs: Seq<Quantity<Token>>) -> Seq<Quantity<Seq<char>>> {
    qs.map_values(|q: Quantity<Token>| q@)
}

/// The view of an optional quantity.
pub open spec fn optional_view(q: Option<Quantity<Token>>) -> Option<Quantity<Seq<char>>> {
    match q {
        Some(v) => Some(v@),
        None => None,
    }
}

impl View for Command {
    type V = CommandText;

    open spec fn view(&self) -> CommandText {
        match self {
            CommandOf::Camera { eye, target, fov, spare } => CommandOf::Camera {
                eye: eye@,
                target: target@,
                fov: fov@,
                spare: quantity_views(spare@),
            },
            CommandOf::Material { name, kind, colour, parameter } => CommandOf::Material {
                name: name@,
                kind: *kind,
                colour: colour@,
                parameter: optional_view(*parameter),
            },
            CommandOf::Sphere { material, center, radius } => CommandOf::Sphere {
                material: *material,
                center: center@,
                radius: radius@,
            },
            CommandOf::Rect { material, axis, first, second, depth } => CommandOf::Rect {
                material: *material,
                axis: *axis,
                first: first@,
                second: second@,
                depth: depth@,
            },
        }
    }
}

/// The views of a list of commands.
pub open spec fn command_views(cs: Seq<Command>) -> Seq<CommandText> {
    cs.map_values(|c: Command| c@)
}

/// The kind of material that a word names.
pub open spec fn kind_of(word: Seq<char>) -> Option<MaterialKind> {
    if word == "metal"@ {
        Some(MaterialKind::Metal)
    } else if word == "lambertian"@ {
        Some(MaterialKind::Lambertian)
    } else if word == "dielectric"@ {
        Some(MaterialKind::Dielectric)
    } else if word == "light"@ {
        Some(MaterialKind::DiffuseLight)
    } else {
        None
    }
}

/// The pair of axes that a word names.
pub open spec fn axis_of(word: Seq<char>) -> Option<Axis> {
    if word == "xy"@ {
        Some(Axis::XY)
    } else if word == "xz"@ {
        Some(Axis::XZ)
    } else if word == "yz"@ {
        Some(Axis::YZ)
    } else {
        None
    }
}

/// Three fields read as quantities, if each of them is one.
pub open spec fn triple_from(x: Seq<char>, y: Seq<char>, z: Seq<char>) -> Option<
    Triple<Seq<char>>,
> {
    match (quantity_of(x), quantity_of(y), quantity_of(z)) {
        (Some(x), Some(y), Some(z)) => Some(Triple { x, y, z }),
        _ => None,
    }
}

/// Two fields read as quantities, if each of them is one.
pub open spec fn bounds_from(low: Seq<char>, high: Seq<char>) -> Option<Bounds<Seq<char>>> {
    match (quantity_of(low), quantity_of(high)) {
        (Some(low), Some(high)) => Some(Bounds { low, high }),
        _ => None,
    }
}

/// The three fields from position `at` on, read as quantities.
pub open spec fn triple_of(fields: Seq<Seq<char>>, at: int) -> Option<Triple<Seq<char>>> {
    triple_from(fields[at], fields[at + 1], fields[at + 2])
}

/// The two fields from position `at` on, read as quantities.
pub open spec fn bounds_of(fields: Seq<Seq<char>>, at: int) -> Option<Bounds<Seq<char>>> {
    bounds_from(fields[at], fields[at + 1])
}

/// All of `fields` read as quantities, if each of them is one.
pub open spec fn quantities_of(fields: Seq<Seq<char>>) -> Option<Seq<Quantity<Seq<char>>>> {
    if forall|i: int| 0 <= i < fields.len() ==> (#[trigger] quantity_of(fields[i])) is Some {
        Some(fields.map_values(|f: Seq<char>| quantity_of(f)->0))
    } else {
        None
    }
}

/// Tells whether a command defines the material `name`.
pub open spec fn defines(c: CommandText, name: Seq<char>) -> bool {
    match c {
        CommandOf::Material { name: defined, .. } => defined == name,
        _ => false,
    }
}

/// The position in `done` of the last definition of the material `name`.
pub open spec fn latest_material(done: Seq<CommandText>, name: Seq<char>) -> Option<nat>
    decreases done.len(),
{
    if done.len() == 0 {
        None
    } else if defines(done.last(), name) {
        Some((done.len() - 1) as nat)
    } else {
        latest_material(done.drop_last(), name)
    }
}

/// The definition that a shape's material refers to, by its position.
pub open spec fn uses(c: CommandText) -> Option<usize> {
    match c {
        CommandOf::Sphere { material, .. } => Some(material),
        CommandOf::Rect { material, .. } => Some(material),
        _ => None,
    }
}

/// The name that a command defines, if it defines a material.
pub open spec fn defined_name(c: CommandText) -> Option<Seq<char>> {
    match c {
        CommandOf::Material { name, .. } => Some(name),
        _ => None,
    }
}

/// Tells whether the command at position `i` of `cs`, if it is a shape,
/// refers to a definition that comes before it and that no other definition
/// of the same name follows before the shape.
pub open spec fn resolved_at(cs: Seq<CommandText>, i: int) -> bool {
    match uses(cs[i]) {
        None => true,
        Some(m) => m < i && match defined_name(cs[m as int]) {
            None => false,
            Some(name) => latest_material(cs.take(i), name) == Some(m as nat),
        },
    }
}

/// Tells whether every shape among `cs` refers to the definition of its
/// material that was in force when the shape was added.
pub open spec fn resolved(cs: Seq<CommandText>) -> bool {
    forall|i: int| 0 <= i < cs.len() ==> #[trigger] resolved_at(cs, i)
}

/// The latest definition of a name is a definition of that name, and lies
/// among the commands searched.
pub proof fn lemma_latest_material_defines(done: Seq<CommandText>, name: Seq<char>)
    requires
        latest_material(done, name) is Some,
    ensures
        latest_material(done, name)->0 < done.len(),
        defined_name(done[latest_material(done, name)->0 as int]) == Some(name),
    decreases done.len(),
{
    if done.len() > 0 && !defines(done.last(), name) {
        lemma_latest_material_defines(done.drop_last(), name);
    }
}

/// How a statement that begins with `CAM` reads: every word after the first
/// is a quantity, and there are at least seven of them.
pub open spec fn camera_of(t: Seq<Seq<char>>) -> Result<CommandText, Fault> {
    if t.len() < 1 {
        Err(Fault::MissingField)
    } else {
        match quantities_of(t.skip(1)) {
            None => Err(Fault::BadRange),
            Some(q) => if q.len() < 7 {
                Err(Fault::MissingField)
            } else {
                Ok(
                    CommandOf::Camera {
                        eye: Triple { x: q[0], y: q[1], z: q[2] },
                        target: Triple { x: q[3], y: q[4], z: q[5] },
                        fov: q[6],
                        spare: q.skip(7),
                    },
                )
            },
        }
    }
}

/// How a statement that begins with `MAT` reads: a name, a kind, a colour and
/// an optional parameter. Words after the parameter are not read.
pub open spec fn material_of(t: Seq<Seq<char>>) -> Result<CommandText, Fault> {
    if t.len() < 6 {
        Err(Fault::MissingField)
    } else if triple_of(t, 3) is None {
        Err(Fault::BadRange)
    } else if t.len() > 6 && quantity_of(t[6]) is None {
        Err(Fault::BadRange)
    } else if kind_of(t[2]) is None {
        Err(Fault::UnknownMaterial)
    } else {
        Ok(
            CommandOf::Material {
                name: t[1],
                kind: kind_of(t[2])->0,
                colour: triple_of(t, 3)->0,
                parameter: if t.len() > 6 {
                    quantity_of(t[6])
                } else {
                    None
                },
            },
        )
    }
}

/// How a statement that begins with `OBJ sphere` reads, after the commands
/// `done`: a material, a center and a radius. Further words are not read.
pub open spec fn sphere_of(t: Seq<Seq<char>>, done: Seq<CommandText>) -> Result<
    CommandText,
    Fault,
> {
    if t.len() < 6 {
        Err(Fault::MissingField)
    } else if triple_of(t, 3) is None {
        Err(Fault::BadRange)
    } else if t.len() < 7 {
        Err(Fault::MissingField)
    } else if quantity_of(t[6]) is None {
        Err(Fault::BadRange)
    } else if latest_material(done, t[2]) is None {
        Err(Fault::UndefinedMaterial)
    } else {
        Ok(
            CommandOf::Sphere {
                material: latest_material(done, t[2])->0 as usize,
                center: triple_of(t, 3)->0,
                radius: quantity_of(t[6])->0,
            },
        )
    }
}

/// How a statement that begins with `OBJ rect` reads, after the commands
/// `done`: a material, a pair of axes, the bounds along either axis and a
/// depth. The depth is a plain number, never a range. Further words are not
/// read.
pub open spec fn rect_of(t: Seq<Seq<char>>, done: Seq<CommandText>) -> Result<
    CommandText,
    Fault,
> {
    if t.len() < 4 {
        Err(Fault::MissingField)
    } else if axis_of(t[3]) is None {
        Err(Fault::UnknownAxis)
    } else if t.len() < 6 {
        Err(Fault::MissingField)
    } else if bounds_of(t, 4) is None {
        Err(Fault::BadRange)
    } else if t.len() < 8 {
        Err(Fault::MissingField)
    } else if bounds_of(t, 6) is None {
        Err(Fault::BadRange)
    } else if t.len() < 9 {
        Err(Fault::MissingField)
    } else if latest_material(done, t[2]) is None {
        Err(Fault::UndefinedMaterial)
    } else {
        Ok(
            CommandOf::Rect {
                material: latest_material(done, t[2])->0 as usize,
                axis: axis_of(t[3])->0,
                first: bounds_of(t, 4)->0,
                second: bounds_of(t, 6)->0,
                depth: t[8],
            },
        )
    }
}

/// Tells whether two texts are the same.
pub fn same_text(a: &[char], b: &[char]) -> (same: bool)
    ensures
        same == (a@ == b@),
{
    if a.len() != b.len() {
        return false;
    }
    let mut i: usize = 0;
    while i < a.len()
        invariant
            i <= a.len() == b.len(),
            a@.take(i as int) == b@.take(i as int),
        decreases a.len() - i,
    {
        if a[i] != b[i] {
            return false;
        }
        proof {
            assert(a@.take(i + 1) == a@.take(i as int).push(a@[i as int]));
            assert(b@.take(i + 1) == b@.take(i as int).push(b@[i as int]));
        }
        i = i + 1;
    }
    proof {
        assert(a@.take(a.len() as int) == a@);
        assert(b@.take(b.len() as int) == b@);
    }
    true
}

/// Tells whether a token is the given word.
pub fn is_word(token: &[char], word: &str) -> (same: bool)
    ensures
        same == (token@ == word@),
{
    let other = chars_of(word);
    same_text(token, other.as_slice())
}

/// Reads a word as a kind of material.
pub fn material_kind(word: &[char]) -> (kind: Option<MaterialKind>)
    ensures
        kind == kind_of(word@),
{
    if is_word(word, "metal") {
        Some(MaterialKind::Metal)
    } else if is_word(word, "lambertian") {
        Some(MaterialKind::Lambertian)
    } else if is_word(word, "dielectric") {
        Some(MaterialKind::Dielectric)
    } else if is_word(word, "light") {
        Some(MaterialKind::DiffuseLight)
    } else {
        None
    }
}

/// Reads a word as a pair of axes.
pub fn axis(word: &[char]) -> (found: Option<Axis>)
    ensures
        found == axis_of(word@),
{
    if is_word(word, "xy") {
        Some(Axis::XY)
    } else if is_word(word, "xz") {
        Some(Axis::XZ)
    } else if is_word(word, "yz") {
        Some(Axis::YZ)
    } else {
        None
    }
}

/// Reads three fields as quantities.
pub fn triple(x: &[char], y: &[char], z: &[char]) -> (found: Option<Triple<Token>>)
    ensures
        match found {
            Some(t) => triple_from(x@, y@, z@) == Some(t@),
            None => triple_from(x@, y@, z@) is None,
        },
{
    let x = quantity(x);
    let y = quantity(y);
    let z = quantity(z);
    match (x, y, z) {
        (Some(x), Some(y), Some(z)) => Some(Triple { x, y, z }),
        _ => None,
    }
}

/// Reads two fields as quantities.
pub fn bounds(low: &[char], high: &[char]) -> (found: Option<Bounds<Token>>)
    ensures
        match found {
            Some(b) => bounds_from(low@, high@) == Some(b@),
            None => bounds_from(low@, high@) is None,
        },
{
    let low = quantity(low);
    let high = quantity(high);
    match (low, high) {
        (Some(low), Some(high)) => Some(Bounds { low, high }),
        _ => None,
    }
}

/// Reads every field as a quantity.
pub fn quantities(fields: &[Token]) -> (found: Option<Vec<Quantity<Token>>>)
    ensures
        match found {
            Some(qs) => quantities_of(texts(fields@)) == Some(quantity_views(qs@)),
            None => quantities_of(texts(fields@)) is None,
        },
{
    let ghost all = texts(fields@);
    let mut out: Vec<Quantity<Token>> = Vec::new();
    let mut i: usize = 0;
    while i < fields.len()
        invariant
            i <= fields.len(),
            all == texts(fields@),
            out.len() == i,
            forall|j: int| 0 <= j < i ==> #[trigger] quantity_of(all[j]) == Some(out@[j]@),
        decreases fields.len() - i,
    {
        proof {
            assert(all[i as int] == fields@[i as int]@);
        }
        match quantity(fields[i].as_slice()) {
            Some(q) => {
                out.push(q);
            },
            None => {
                return None;
            },
        }
        i = i + 1;
    }
    proof {
        assert(quantity_views(out@) =~= all.map_values(|f: Seq<char>| quantity_of(f)->0));
    }
    Some(out)
}

/// Finds the last definition of the material `name` among `done`.
pub fn find_material(done: &[Command], name: &[char]) -> (found: Option<usize>)
    ensures
        match found {
            Some(i) => latest_material(command_views(done@), name@) == Some(i as nat),
            None => latest_material(command_views(done@), name@) is None,
        },
{
    let ghost all = command_views(done@);
    let mut i: usize = done.len();
    proof {
        assert(all.take(i as int) == all);
    }
    while i > 0
        invariant
            i <= done.len(),
            all == command_views(done@),
            latest_material(all, name@) == latest_material(all.take(i as int), name@),
        decreases i,
    {
        i = i - 1;
        proof {
            assert(all.take(i + 1).last() == done@[i as int]@);
            assert(all.take(i + 1).drop_last() == all.take(i as int));
        }
        match &done[i] {
            CommandOf::Material { name: defined, .. } => {
                if same_text(defined.as_slice(), name) {
                    return Some(i);
                }
            },
            _ => {},
        }
    }
    None
}

/// Reads a statement that begins with `CAM`.
pub fn camera(t: &[Token]) -> (r: Result<Command, Fault>)
    ensures
        match r {
            Ok(c) => camera_of(texts(t@)) == Ok::<CommandText, Fault>(c@),
            Err(f) => camera_of(texts(t@)) == Err::<CommandText, Fault>(f),
        },
{
    if t.len() < 1 {
        return Err(Fault::MissingField);
    }
    proof {
        assert(texts(t@.subrange(1, t.len() as int)) == texts(t@).skip(1));
    }
    match quantities(slice_subrange(t, 1, t.len())) {
        None => Err(Fault::BadRange),
        Some(mut q) => {
            if q.len() < 7 {
                return Err(Fault::MissingField);
            }
            let ghost all = quantity_views(q@);
            let spare = q.split_off(7);
            let fov = q.pop().unwrap();
            let tz = q.pop().unwrap();
            let ty = q.pop().unwrap();
            let tx = q.pop().unwrap();
            let ez = q.pop().unwrap();
            let ey = q.pop().unwrap();
            let ex = q.pop().unwrap();
            proof {
                assert(quantity_views(spare@) =~= all.skip(7));
            }
            Ok(
                CommandOf::Camera {
                    eye: Triple { x: ex, y: ey, z: ez },
                    target: Triple { x: tx, y: ty, z: tz },
                    fov,
                    spare,
                },
            )
        },
    }
}

/// Reads a statement that begins with `MAT`.
pub fn material(t: &[Token]) -> (r: Result<Command, Fault>)
    ensures
        match r {
            Ok(c) => material_of(texts(t@)) == Ok::<CommandText, Fault>(c@),
            Err(f) => material_of(texts(t@)) == Err::<CommandText, Fault>(f),
        },
{
    if t.len() < 6 {
        return Err(Fault::MissingField);
    }
    let colour = match triple(t[3].as_slice(), t[4].as_slice(), t[5].as_slice()) {
        Some(c) => c,
        None => {
            return Err(Fault::BadRange);
        },
    };
    let parameter = if t.len() > 6 {
        match quantity(t[6].as_slice()) {
            Some(q) => Some(q),
            None => {
                return Err(Fault::BadRange);
            },
        }
    } else {
        None
    };
    let kind = match material_kind(t[2].as_slice()) {
        Some(k) => k,
        None => {
            return Err(Fault::UnknownMaterial);
        },
    };
    let name = slice_to_vec(t[1].as_slice());
    Ok(CommandOf::Material { name, kind, colour, parameter })
}

/// Reads a statement that begins with `OBJ sphere`, after the commands `done`.
pub fn sphere(t: &[Token], done: &[Command]) -> (r: Result<Command, Fault>)
    ensures
        match r {
            Ok(c) => sphere_of(texts(t@), command_views(done@)) == Ok::<CommandText, Fault>(c@),
            Err(f) => sphere_of(texts(t@), command_views(done@)) == Err::<CommandText, Fault>(f),
        },
{
    if t.len() < 6 {
        return Err(Fault::MissingField);
    }
    let center = match triple(t[3].as_slice(), t[4].as_slice(), t[5].as_slice()) {
        Some(c) => c,
        None => {
            return Err(Fault::BadRange);
        },
    };
    if t.len() < 7 {
        return Err(Fault::MissingField);
    }
    let radius = match quantity(t[6].as_slice()) {
        Some(q) => q,
        None => {
            return Err(Fault::BadRange);
        },
    };
    match find_material(done, t[2].as_slice()) {
        Some(material) => Ok(CommandOf::Sphere { material, center, radius }),
        None => Err(Fault::UndefinedMaterial),
    }
}

/// Reads a statement that begins with `OBJ rect`, after the commands `done`.
pub fn rect(t: &[Token], done: &[Command]) -> (r: Result<Command, Fault>)
    ensures
        match r {
            Ok(c) => rect_of(texts(t@), command_views(done@)) == Ok::<CommandText, Fault>(c@),
            Err(f) => rect_of(texts(t@), command_views(done@)) == Err::<CommandText, Fault>(f),
        },
{
    if t.len() < 4 {
        return Err(Fault::MissingField);
    }
    let axis = match axis(t[3].as_slice()) {
        Some(a) => a,
        None => {
            return Err(Fault::UnknownAxis);
        },
    };
    if t.len() < 6 {
        return Err(Fault::MissingField);
    }
    let first = match bounds(t[4].as_slice(), t[5].as_slice()) {
        Some(b) => b,
        None => {
            return Err(Fault::BadRange);
        },
    };
    if t.len() < 8 {
        return Err(Fault::MissingField);
    }
    let second = match bounds(t[6].as_slice(), t[7].as_slice()) {
        Some(b) => b,
        None => {
            return Err(Fault::BadRange);
        },
    };
    if t.len() < 9 {
        return Err(Fault::MissingField);
    }
    let depth = slice_to_vec(t[8].as_slice());
    match find_material(done, t[2].as_slice()) {
        Some(material) => Ok(CommandOf::Rect { material, axis, first, second, depth }),
        None => Err(Fault::UndefinedMaterial),
    }
}

} // verus!
