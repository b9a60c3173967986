use vstd::prelude::*;
use vstd::string::StringExecFns;

verus! {

// ------------------------------------------------------------------ the derive input

/// A generic argument of a path segment: a type, or anything else (a lifetime, a constant...).
pub enum GenericArgument {
    Type(TypeRepr),
    Other,
}

/// The arguments of a path segment.
pub enum PathArguments {
    /// No arguments, as in `u8`.
    Plain,
    AngleBracketed(Vec<GenericArgument>),
    Parenthesized,
}

/// One segment of a type path, such as `Option<u8>` in `std::option::Option<u8>`.
pub struct PathSegment {
    pub ident: String,
    pub arguments: PathArguments,
}

/// The shape of a type: a path, or any other type.
pub enum TypeKind {
    Path(Vec<PathSegment>),
    Other,
}

/// A type of a field: its source text and its shape.
pub struct TypeRepr {
    pub text: String,
    pub kind: TypeKind,
}

/// A field of the input: its name (named fields have one) and type.
pub struct FieldInput {
    pub ident: Option<String>,
    pub ty: TypeRepr,
}

/// The fields of a struct.
pub enum Fields {
    Named(Vec<FieldInput>),
    Unnamed,
    Unit,
}

/// The body of the item that a derive is applied to.
pub enum Data {
    Struct(Fields),
    Enum(Vec<String>),
    Union,
}

/// The item that a derive is applied to: its name and body.
pub struct DeriveInput {
    pub ident: String,
    pub data: Data,
}

// ------------------------------------------------------------------ reading types

/// The first segment of `ty`'s path is named `Option`.
pub open spec fn starts_with_option(ty: TypeRepr) -> bool {
    match ty.kind {
        TypeKind::Path(segments) => segments@.len() > 0 && segments@[0].ident@ == "Option"@,
        TypeKind::Other => false,
    }
}

/// The first generic argument of the first segment of `ty`'s path, where it is a type.
pub open spec fn first_type_argument(ty: TypeRepr) -> Option<TypeRepr> {
    match ty.kind {
        TypeKind::Path(segments) => if segments@.len() > 0 {
            match segments@[0].arguments {
                PathArguments::AngleBracketed(args) => if args@.len() > 0 {
                    match args@[0] {
                        GenericArgument::Type(t) => Some(t),
                        GenericArgument::Other => None,
                    }
                } else {
                    None
                },
                _ => None,
            }
        } else {
            None
        },
        TypeKind::Other => None,
    }
}

/// A type that starts with `Option` has a type argument in angle brackets.
pub open spec fn option_well_formed(ty: TypeRepr) -> bool {
    starts_with_option(ty) ==> first_type_argument(ty) is Some
}

/// Whether `ty` is an `Option`, and the type that a builder field of type `ty` holds: the type
/// inside the `Option`, or `ty` itself.
pub fn get_option_inner(ty: &TypeRepr) -> (r: (bool, &TypeRepr))
    requires
        option_well_formed(*ty),
    ensures
        r.0 == starts_with_option(*ty),
        r.0 ==> *r.1 == first_type_argument(*ty).unwrap(),
        !r.0 ==> *r.1 == *ty,
{
    let option = String::from_str("Option");
    match &ty.kind {
        TypeKind::Path(segments) => {
            if segments.len() > 0 {
                let v = &segments[0];
                if v.ident == option {
                    match &v.arguments {
                        PathArguments::AngleBracketed(args) => {
                            match &args[0] {
                                GenericArgument::Type(t) => {
                                    return (true, t);
                                },
                                GenericArgument::Other => {},
                            }
                        },
                        _ => {},
                    }
                }
            }
        },
        TypeKind::Other => {},
    }
    (false, ty)
}

// ------------------------------------------------------------------ the builder

/// A field of the built struct: its name, the text of the type the builder holds for it, and
/// whether the struct's field is an `Option`.
pub struct Field {
    pub name: String,
    pub ty: String,
    pub optional: bool,
}

impl Field {
    /// Reads a named field.
    pub fn from(f: FieldInput) -> (r: Field)
        requires
            f.ident is Some,
            option_well_formed(f.ty),
        ensures
            r.name@ == f.ident.unwrap()@,
            r.optional == starts_with_option(f.ty),
            r.optional ==> r.ty@ == first_type_argument(f.ty).unwrap().text@,
            !r.optional ==> r.ty@ == f.ty.text@,
    {
        let (optional, ty) = get_option_inner(&f.ty);
        let text = ty.text.clone();
        Field { name: f.ident.unwrap(), ty: text, optional }
    }
}

/// What the builder derive reads of a struct: its name and fields.
pub struct BuilderContext {
    pub name: String,
    pub fields: Vec<Field>,
}

/// The derive input is a struct with named fields, each with a well-formed type.
pub open spec fn builder_input_ok(input: DeriveInput) -> bool {
    match input.data {
        Data::Struct(Fields::Named(named)) => forall|i: int|
            0 <= i < named@.len() ==> (#[trigger] named@[i]).ident is Some && option_well_formed(
                named@[i].ty,
            ),
        _ => false,
    }
}

/// The named fields of a struct input.
pub open spec fn named_fields(input: DeriveInput) -> Seq<FieldInput> {
    match input.data {
        Data::Struct(Fields::Named(named)) => named@,
        _ => Seq::empty(),
    }
}

/// `out` is what reading the field `f` gives.
pub open spec fn reads_field(f: FieldInput, out: Field) -> bool {
    &&& out.name@ == f.ident.unwrap()@
    &&& out.optional == starts_with_option(f.ty)
    &&& out.optional ==> out.ty@ == first_type_argument(f.ty).unwrap().text@
    &&& !out.optional ==> out.ty@ == f.ty.text@
}

/// The items of `items`, each followed by `sep`.
pub open spec fn join_each(items: Seq<Seq<char>>, sep: Seq<char>) -> Seq<char>
    decreases items.len(),
{
    if items.len() == 0 {
        Seq::empty()
    } else {
        join_each(items.drop_last(), sep) + items.last() + sep
    }
}

/// The declaration of the builder's field for `f`.
pub open spec fn optionized_field_text(f: Field) -> Seq<char> {
    f.name@ + ": std::option::Option<"@ + f.ty@ + ">"@
}

/// The builder's setter for `f`.
pub open spec fn method_text(f: Field) -> Seq<char> {
    "pub fn with_"@ + f.name@ + "(mut self, v: impl Into<"@ + f.ty@ + ">) -> Self { self."@
        + f.name@ + " = Some(v.into()); self }"@
}

/// How `build` fills `f`: taken as it is where optional, else required to be set.
pub open spec fn assign_text(f: Field) -> Seq<char> {
    if f.optional {
        f.name@ + ": self."@ + f.name@ + ".take()"@
    } else {
        f.name@ + ": self."@ + f.name@ + ".take().ok_or(concat!(stringify!("@ + f.name@
            + "), \" needs to be set!\"))?"@
    }
}

/// The texts of `f` applied to each of `fields`.
pub open spec fn texts(fields: Seq<Field>, f: spec_fn(Field) -> Seq<char>) -> Seq<Seq<char>> {
    fields.map_values(f)
}

/// The whole text that the builder derive generates.
pub open spec fn render_text(name: Seq<char>, fields: Seq<Field>) -> Seq<char> {
    "#[derive(Debug, Default)] struct "@ + name + "Builder { "@ + join_each(
        texts(fields, |f: Field| optionized_field_text(f)),
        ", "@,
    ) + "} impl "@ + name + "Builder { "@ + join_each(
        texts(fields, |f: Field| method_text(f)),
        " "@,
    ) + "pub fn build(mut self) -> Result<"@ + name + ", &'static str> { Ok("@ + name + " { "@
        + join_each(texts(fields, |f: Field| assign_text(f)), ", "@) + "}) } } impl "@ + name
        + " { fn builder() -> "@ + name + "Builder { Default::default() } }"@
}

proof fn lemma_join_each_push(items: Seq<Seq<char>>, sep: Seq<char>, i: int)
    requires
        0 <= i < items.len(),
    ensures
        join_each(items.take(i + 1), sep) == join_each(items.take(i), sep) + items[i] + sep,
{
    assert(items.take(i + 1).drop_last() =~= items.take(i));
}

/// Renders one text per field with `f`, each followed by `sep`, after `out`.
fn append_each(out: &mut String, fields: &Vec<Field>, which: u8, sep: &str)
    requires
        which < 3,
    ensures
        final(out)@ == old(out)@ + join_each(
            texts(
                fields@,
                if which == 0 {
                    |f: Field| optionized_field_text(f)
                } else if which == 1 {
                    |f: Field| method_text(f)
                } else {
                    |f: Field| assign_text(f)
                },
            ),
            sep@,
        ),
{
    let ghost f = if which == 0 {
        |f: Field| optionized_field_text(f)
    } else if which == 1 {
        |f: Field| method_text(f)
    } else {
        |f: Field| assign_text(f)
    };
    let ghost items = texts(fields@, f);
    let ghost start = out@;
    let mut i: usize = 0;
    while i < fields.len()
        invariant
            which < 3,
            i <= fields@.len(),
            items == texts(fields@, f),
            f == (if which == 0 {
                |f: Field| optionized_field_text(f)
            } else if which == 1 {
                |f: Field| method_text(f)
            } else {
                |f: Field| assign_text(f)
            }),
            out@ == start + join_each(items.take(i as int), sep@),
        decreases fields.len() - i,
    {
        let field = &fields[i];
        if which == 0 {
            out.append(field.name.as_str());
            out.append(": std::option::Option<");
            out.append(field.ty.as_str());
            out.append(">");
        } else if which == 1 {
            out.append("pub fn with_");
            out.append(field.name.as_str());
            out.append("(mut self, v: impl Into<");
            out.append(field.ty.as_str());
            out.append(">) -> Self { self.");
            out.append(field.name.as_str());
            out.append(" = Some(v.into()); self }");
        } else if field.optional {
            out.append(field.name.as_str());
            out.append(": self.");
            out.append(field.name.as_str());
            out.append(".take()");
        } else {
            out.append(field.name.as_str());
            out.append(": self.");
            out.append(field.name.as_str());
            out.append(".take().ok_or(concat!(stringify!(");
            out.append(field.name.as_str());
            out.append("), \" needs to be set!\"))?");
        }
        out.append(sep);
        proof {
            lemma_join_each_push(items, sep@, i as int);
            assert(out@ =~= start + join_each(items.take(i + 1), sep@));
        }
        i += 1;
    }
    proof {
        assert(items.take(fields@.len() as int) =~= items);
    }
}

impl BuilderContext {
    /// Reads the derive input: its name and its named fields, in order.
    pub fn from(input: DeriveInput) -> (r: BuilderContext)
        requires
            builder_input_ok(input),
        ensures
            r.name@ == input.ident@,
            r.fields@.len() == named_fields(input).len(),
            forall|i: int|
                0 <= i < r.fields@.len() ==> reads_field(named_fields(input)[i], #[trigger] r.fields@[i]),
    {
        let name = input.ident;
        let named = match input.data {
            Data::Struct(Fields::Named(named)) => named,
            _ => vstd::pervasive::unreached(),
        };
        let ghost inputs = named@;
        let mut fields: Vec<Field> = Vec::new();
        for f in iter: named.into_iter()
            invariant
                iter.seq() == inputs,
                forall|i: int|
                    0 <= i < inputs.len() ==> (#[trigger] inputs[i]).ident is Some
                        && option_well_formed(inputs[i].ty),
                fields@.len() == iter.index(),
                forall|i: int| 0 <= i < fields@.len() ==> reads_field(inputs[i], #[trigger] fields@[i]),
        {
            let field = Field::from(f);
            fields.push(field);
        }
        BuilderContext { name, fields }
    }

    /// The declarations of the builder's fields, one per field, in order.
    pub fn gen_optionized_fields(&self) -> (r: Vec<String>)
        ensures
            r@.len() == self.fields@.len(),
            forall|i: int|
                0 <= i < r@.len() ==> (#[trigger] r@[i])@ == optionized_field_text(self.fields@[i]),
    {
        let mut out: Vec<String> = Vec::new();
        let mut i: usize = 0;
        while i < self.fields.len()
            invariant
                i <= self.fields@.len(),
                out@.len() == i,
                forall|j: int|
                    0 <= j < i ==> (#[trigger] out@[j])@ == optionized_field_text(self.fields@[j]),
            decreases self.fields.len() - i,
        {
            let field = &self.fields[i];
            let mut s = field.name.clone();
            s.append(": std::option::Option<");
            s.append(field.ty.as_str());
            s.append(">");
            out.push(s);
            i += 1;
        }
        out
    }

    /// The builder's setters, one per field, in order.
    pub fn gen_methods(&self) -> (r: Vec<String>)
        ensures
            r@.len() == self.fields@.len(),
            forall|i: int| 0 <= i < r@.len() ==> (#[trigger] r@[i])@ == method_text(self.fields@[i]),
    {
        let mut out: Vec<String> = Vec::new();
        let mut i: usize = 0;
        while i < self.fields.len()
            invariant
                i <= self.fields@.len(),
                out@.len() == i,
                forall|j: int| 0 <= j < i ==> (#[trigger] out@[j])@ == method_text(self.fields@[j]),
            decreases self.fields.len() - i,
        {
            let field = &self.fields[i];
            let mut s = String::from_str("pub fn with_");
            s.append(field.name.as_str());
            s.append("(mut self, v: impl Into<");
            s.append(field.ty.as_str());
            s.append(">) -> Self { self.");
            s.append(field.name.as_str());
            s.append(" = Some(v.into()); self }");
            out.push(s);
            i += 1;
        }
        out
    }

    /// How `build` fills each field, in order.
    pub fn gen_assigns(&self) -> (r: Vec<String>)
        ensures
            r@.len() == self.fields@.len(),
            forall|i: int| 0 <= i < r@.len() ==> (#[trigger] r@[i])@ == assign_text(self.fields@[i]),
    {
        let mut out: Vec<String> = Vec::new();
        let mut i: usize = 0;
        while i < self.fields.len()
            invariant
                i <= self.fields@.len(),
                out@.len() == i,
                forall|j: int| 0 <= j < i ==> (#[trigger] out@[j])@ == assign_text(self.fields@[j]),
            decreases self.fields.len() - i,
        {
            let field = &self.fields[i];
            let mut s = field.name.clone();
            s.append(": self.");
            s.append(field.name.as_str());
            if field.optional {
                s.append(".take()");
            } else {
                s.append(".take().ok_or(concat!(stringify!(");
                s.append(field.name.as_str());
                s.append("), \" needs to be set!\"))?");
            }
            out.push(s);
            i += 1;
        }
        out
    }

    /// The whole text of the builder: its struct, its setters and `build`, and `builder()`.
    pub fn render(&self) -> (r: String)
        ensures
            r@ == render_text(self.name@, self.fields@),
    {
        let name = self.name.as_str();
        let mut out = String::from_str("#[derive(Debug, Default)] struct ");
        out.append(name);
        out.append("Builder { ");
        append_each(&mut out, &self.fields, 0, ", ");
        out.append("} impl ");
        out.append(name);
        out.append("Builder { ");
        append_each(&mut out, &self.fields, 1, " ");
        out.append("pub fn build(mut self) -> Result<");
        out.append(name);
        out.append(", &'static str> { Ok(");
        out.append(name);
        out.append(" { ");
        append_each(&mut out, &self.fields, 2, ", ");
        out.append("}) } } impl ");
        out.append(name);
        out.append(" { fn builder() -> ");
        out.append(name);
        out.append("Builder { Default::default() } }");
        out
    }
}

/// The text that the builder derive generates for `input`.
pub fn derive_builder(input: DeriveInput) -> (r: String)
    requires
        builder_input_ok(input),
    ensures
        exists|c: BuilderContext|
            c.name@ == input.ident@ && c.fields@.len() == named_fields(input).len() && (forall|i: int|
                0 <= i < c.fields@.len() ==> reads_field(named_fields(input)[i], #[trigger] c.fields@[i]))
                && r@ == render_text(c.name@, c.fields@),
{
    let context = BuilderContext::from(input);
    context.render()
}

// ------------------------------------------------------------------ string conversions of enums

/// The parsing arm for variant `v` of enum `name`.
pub open spec fn from_str_arm(name: Seq<char>, v: Seq<char>) -> Seq<char> {
    "\""@ + v + "\" => Ok("@ + name + "::"@ + v + "),"@
}

/// The printing arm for variant `v` of enum `name`.
pub open spec fn to_string_arm(name: Seq<char>, v: Seq<char>) -> Seq<char> {
    name + "::"@ + v + " => stringify!("@ + v + "),"@
}

/// The arms of `arm` for each variant, each followed by a space.
pub open spec fn arms(name: Seq<char>, variants: Seq<String>, arm: spec_fn(Seq<char>, Seq<char>) -> Seq<char>) -> Seq<char>
    decreases variants.len(),
{
    if variants.len() == 0 {
        Seq::empty()
    } else {
        arms(name, variants.drop_last(), arm) + arm(name, variants.last()@) + " "@
    }
}

/// The text that the string-conversion derive generates for the enum `name` with `variants`.
pub open spec fn enum_string_text(name: Seq<char>, variants: Seq<String>) -> Seq<char> {
    "impl std::str::FromStr for "@ + name
        + " { type Err = String; fn from_str(s: &str) -> Result<Self, Self::Err> { match s { "@
        + arms(name, variants, |n: Seq<char>, v: Seq<char>| from_str_arm(n, v))
        + "_ => Err(format!(\"Invalid value for {}: {}\", stringify!("@ + name
        + "), s)), } } } impl std::string::ToString for "@ + name
        + " { fn to_string(&self) -> String { match self { "@ + arms(
        name,
        variants,
        |n: Seq<char>, v: Seq<char>| to_string_arm(n, v),
    ) + "}.to_string() } }"@
}

/// The input is an enum.
pub open spec fn is_enum_input(input: DeriveInput) -> bool {
    input.data is Enum
}

/// The variants of an enum input.
pub open spec fn variants_of(input: DeriveInput) -> Seq<String> {
    match input.data {
        Data::Enum(variants) => variants@,
        _ => Seq::empty(),
    }
}

/// Appends the arms for each variant after `out`: parsing arms where `parsing`, printing arms
/// otherwise.
fn append_arms(out: &mut String, name: &str, variants: &Vec<String>, parsing: bool)
    ensures
        final(out)@ == old(out)@ + arms(
            name@,
            variants@,
            if parsing {
                |n: Seq<char>, v: Seq<char>| from_str_arm(n, v)
            } else {
                |n: Seq<char>, v: Seq<char>| to_string_arm(n, v)
            },
        ),
{
    let ghost arm = if parsing {
        |n: Seq<char>, v: Seq<char>| from_str_arm(n, v)
    } else {
        |n: Seq<char>, v: Seq<char>| to_string_arm(n, v)
    };
    let ghost start = out@;
    let mut i: usize = 0;
    while i < variants.len()
        invariant
            i <= variants@.len(),
            arm == (if parsing {
                |n: Seq<char>, v: Seq<char>| from_str_arm(n, v)
            } else {
                |n: Seq<char>, v: Seq<char>| to_string_arm(n, v)
            }),
            out@ == start + arms(name@, variants@.take(i as int), arm),
        decreases variants.len() - i,
    {
        let v = variants[i].as_str();
        if parsing {
            out.append("\"");
            out.append(v);
            out.append("\" => Ok(");
            out.append(name);
            out.append("::");
            out.append(v);
            out.append("),");
        } else {
            out.append(name);
            out.append("::");
            out.append(v);
            out.append(" => stringify!(");
            out.append(v);
            out.append("),");
        }
        out.append(" ");
        proof {
            assert(variants@.take(i + 1).drop_last() =~= variants@.take(i as int));
            assert(out@ =~= start + arms(name@, variants@.take(i + 1), arm));
        }
        i += 1;
    }
    proof {
        assert(variants@.take(variants@.len() as int) =~= variants@);
    }
}

/// The text that the string-conversion derive generates for an enum: parsing each variant from
/// its name, and printing each variant as its name.
pub fn enum_string(input: DeriveInput) -> (r: String)
    requires
        is_enum_input(input),
    ensures
        r@ == enum_string_text(input.ident@, variants_of(input)),
{
    let name = input.ident;
    let variants = match input.data {
        Data::Enum(variants) => variants,
        _ => vstd::pervasive::unreached(),
    };
    let mut out = String::from_str("impl std::str::FromStr for ");
    out.append(name.as_str());
    out.append(" { type Err = String; fn from_str(s: &str) -> Result<Self, Self::Err> { match s { ");
    append_arms(&mut out, name.as_str(), &variants, true);
    out.append("_ => Err(format!(\"Invalid value for {}: {}\", stringify!(");
    out.append(name.as_str());
    out.append("), s)), } } } impl std::string::ToString for ");
    out.append(name.as_str());
    out.append(" { fn to_string(&self) -> String { match self { ");
    append_arms(&mut out, name.as_str(), &variants, false);
    out.append("}.to_string() } }");
    out
}

proof fn lemma_arms_append(
    name: Seq<char>,
    a: Seq<String>,
    b: Seq<String>,
    arm: spec_fn(Seq<char>, Seq<char>) -> Seq<char>,
)
    ensures
        arms(name, a + b, arm) == arms(name, a, arm) + arms(name, b, arm),
    decreases b.len(),
{
    if b.len() == 0 {
        assert(a + b =~= a);
        assert(arms(name, b, arm) =~= Seq::<char>::empty());
        assert(arms(name, a, arm) + arms(name, b, arm) =~= arms(name, a, arm));
    } else {
        lemma_arms_append(name, a, b.drop_last(), arm);
        assert((a + b).drop_last() =~= a + b.drop_last());
        assert((a + b).last() == b.last());
        assert(arms(name, a + b, arm) =~= arms(name, a, arm) + arms(name, b, arm));
    }
}

/// Every variant gets its own arm, in order: the arms for `variants` are the arms for the
/// variants before the `i`-th, then the arm of the `i`-th variant followed by a space, then the
/// arms for the variants after it; so there is exactly one arm per variant, and the arms for no
/// variants are empty.
pub proof fn lemma_arms_each_variant(
    name: Seq<char>,
    variants: Seq<String>,
    arm: spec_fn(Seq<char>, Seq<char>) -> Seq<char>,
    i: int,
)
    requires
        0 <= i < variants.len(),
    ensures
        arms(name, variants, arm) == arms(name, variants.take(i), arm) + arm(name, variants[i]@)
            + " "@ + arms(name, variants.skip(i + 1), arm),
        arms(name, Seq::<String>::empty(), arm) == Seq::<char>::empty(),
{
    let one = seq![variants[i]];
    assert(variants =~= variants.take(i) + one + variants.skip(i + 1));
    lemma_arms_append(name, variants.take(i) + one, variants.skip(i + 1), arm);
    lemma_arms_append(name, variants.take(i), one, arm);
    assert(one.drop_last() =~= Seq::<String>::empty());
    assert(arms(name, one.drop_last(), arm) =~= Seq::<char>::empty());
    assert(one.last() == variants[i]);
    assert(arms(name, one, arm) =~= arm(name, variants[i]@) + " "@);
    assert(arms(name, variants, arm) =~= arms(name, variants.take(i), arm) + arm(name, variants[i]@)
        + " "@ + arms(name, variants.skip(i + 1), arm));
}

/// For each variant `v` of an enum `name`, the generated text parses `"v"` as `name::v` and
/// prints `name::v` as `v`: the text holds, in order of the variants, one parsing arm and one
/// printing arm per variant.
pub proof fn lemma_enum_string_arms(name: Seq<char>, variants: Seq<String>, i: int)
    requires
        0 <= i < variants.len(),
    ensures
        from_str_arm(name, variants[i]@) == "\""@ + variants[i]@ + "\" => Ok("@ + name + "::"@
            + variants[i]@ + "),"@,
        to_string_arm(name, variants[i]@) == name + "::"@ + variants[i]@ + " => stringify!("@
            + variants[i]@ + "),"@,
        arms(name, variants, |n: Seq<char>, v: Seq<char>| from_str_arm(n, v)) == arms(
            name,
            variants.take(i),
            |n: Seq<char>, v: Seq<char>| from_str_arm(n, v),
        ) + from_str_arm(name, variants[i]@) + " "@ + arms(
            name,
            variants.skip(i + 1),
            |n: Seq<char>, v: Seq<char>| from_str_arm(n, v),
        ),
        arms(name, variants, |n: Seq<char>, v: Seq<char>| to_string_arm(n, v)) == arms(
            name,
            variants.take(i),
            |n: Seq<char>, v: Seq<char>| to_string_arm(n, v),
        ) + to_string_arm(name, variants[i]@) + " "@ + arms(
            name,
            variants.skip(i + 1),
            |n: Seq<char>, v: Seq<char>| to_string_arm(n, v),
        ),
{
    lemma_arms_each_variant(name, variants, |n: Seq<char>, v: Seq<char>| from_str_arm(n, v), i);
    lemma_arms_each_variant(name, variants, |n: Seq<char>, v: Seq<char>| to_string_arm(n, v), i);
}

proof fn lemma_join_each_append(a: Seq<Seq<char>>, b: Seq<Seq<char>>, sep: Seq<char>)
    ensures
        join_each(a + b, sep) == join_each(a, sep) + join_each(b, sep),
    decreases b.len(),
{
    if b.len() == 0 {
        assert(a + b =~= a);
        assert(join_each(a, sep) + join_each(b, sep) =~= join_each(a, sep));
    } else {
        lemma_join_each_append(a, b.drop_last(), sep);
        assert((a + b).drop_last() =~= a + b.drop_last());
        assert((a + b).last() == b.last());
        assert(join_each(a + b, sep) =~= join_each(a, sep) + join_each(b, sep));
    }
}

/// Every field gets its own piece of the builder, in order: the pieces for `fields` are those
/// for the fields before the `i`-th, then the piece of the `i`-th field followed by the
/// separator, then those for the fields after it; so each field has exactly one declaration,
/// one setter and one assignment.
pub proof fn lemma_builder_piece_per_field(
    fields: Seq<Field>,
    f: spec_fn(Field) -> Seq<char>,
    sep: Seq<char>,
    i: int,
)
    requires
        0 <= i < fields.len(),
    ensures
        join_each(texts(fields, f), sep) == join_each(texts(fields.take(i), f), sep) + f(fields[i])
            + sep + join_each(texts(fields.skip(i + 1), f), sep),
{
    let items = texts(fields, f);
    let one = seq![items[i]];
    assert(items =~= texts(fields.take(i), f) + one + texts(fields.skip(i + 1), f));
    lemma_join_each_append(texts(fields.take(i), f) + one, texts(fields.skip(i + 1), f), sep);
    lemma_join_each_append(texts(fields.take(i), f), one, sep);
    assert(one.drop_last() =~= Seq::<Seq<char>>::empty());
    assert(join_each(one.drop_last(), sep) =~= Seq::<char>::empty());
    assert(join_each(one, sep) =~= f(fields[i]) + sep);
    assert(join_each(items, sep) =~= join_each(texts(fields.take(i), f), sep) + f(fields[i]) + sep
        + join_each(texts(fields.skip(i + 1), f), sep));
}

} // verus!
