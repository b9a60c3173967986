use idioms::macrox::{
    derive_builder, enum_string, get_option_inner, BuilderContext, Data, DeriveInput, FieldInput,
    Fields, GenericArgument, PathArguments, PathSegment, TypeKind, TypeRepr,
};

fn plain(text: &str) -> TypeRepr {
    TypeRepr {
        text: text.to_string(),
        kind: TypeKind::Path(vec![PathSegment {
            ident: text.to_string(),
            arguments: PathArguments::Plain,
        }]),
    }
}

fn option_of(inner: &str) -> TypeRepr {
    TypeRepr {
        text: format!("Option<{}>", inner),
        kind: TypeKind::Path(vec![PathSegment {
            ident: "Option".to_string(),
            arguments: PathArguments::AngleBracketed(vec![GenericArgument::Type(plain(inner))]),
        }]),
    }
}

fn command_input() -> DeriveInput {
    DeriveInput {
        ident: "Command".to_string(),
        data: Data::Struct(Fields::Named(vec![
            FieldInput {
                ident: Some("executable".to_string()),
                ty: plain("String"),
            },
            FieldInput {
                ident: Some("env".to_string()),
                ty: option_of("String"),
            },
        ])),
    }
}

#[test]
fn option_types_are_unwrapped() {
    let ty = option_of("u8");
    let (optional, inner) = get_option_inner(&ty);
    assert!(optional);
    assert_eq!("u8", inner.text);
    let ty = plain("u8");
    let (optional, inner) = get_option_inner(&ty);
    assert!(!optional);
    assert_eq!("u8", inner.text);
}

#[test]
fn builder_pieces() {
    let context = BuilderContext::from(command_input());
    assert_eq!("Command", context.name);
    assert_eq!(
        vec![
            "executable: std::option::Option<String>".to_string(),
            "env: std::option::Option<String>".to_string()
        ],
        context.gen_optionized_fields()
    );
    assert_eq!(
        "pub fn with_env(mut self, v: impl Into<String>) -> Self { self.env = Some(v.into()); self }",
        context.gen_methods()[1]
    );
    assert_eq!(
        vec![
            "executable: self.executable.take().ok_or(concat!(stringify!(executable), \" needs to be set!\"))?"
                .to_string(),
            "env: self.env.take()".to_string()
        ],
        context.gen_assigns()
    );
}

#[test]
fn builder_render() {
    let text = derive_builder(command_input());
    assert_eq!(
        "#[derive(Debug, Default)] struct CommandBuilder { executable: std::option::Option<String>, env: std::option::Option<String>, } \
impl CommandBuilder { pub fn with_executable(mut self, v: impl Into<String>) -> Self { self.executable = Some(v.into()); self } \
pub fn with_env(mut self, v: impl Into<String>) -> Self { self.env = Some(v.into()); self } \
pub fn build(mut self) -> Result<Command, &'static str> { Ok(Command { executable: self.executable.take().ok_or(concat!(stringify!(executable), \" needs to be set!\"))?, env: self.env.take(), }) } } \
impl Command { fn builder() -> CommandBuilder { Default::default() } }",
        text
    );
}

#[test]
fn enum_string_render() {
    let input = DeriveInput {
        ident: "Color".to_string(),
        data: Data::Enum(vec!["Red".to_string(), "Blue".to_string()]),
    };
    assert_eq!(
        "impl std::str::FromStr for Color { type Err = String; fn from_str(s: &str) -> Result<Self, Self::Err> { match s { \
\"Red\" => Ok(Color::Red), \"Blue\" => Ok(Color::Blue), _ => Err(format!(\"Invalid value for {}: {}\", stringify!(Color), s)), } } } \
impl std::string::ToString for Color { fn to_string(&self) -> String { match self { Color::Red => stringify!(Red), Color::Blue => stringify!(Blue), }.to_string() } }",
        enum_string(input)
    );
}
