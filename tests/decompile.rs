use protodump::cytrus::{same_text, Api, PlatformVersions, VersionInfo};
use protodump::decompile::{Construct, RenderError};
use protodump::descriptor::{
    Dependency, EnumDesc, EnumValueDesc, FieldDesc, FieldRole, FieldType, FileDesc, Label,
    MessageDesc, OneofDesc, ReservedRange,
};
use protodump::proto_result::ProtoResult;
use protodump::proto_writer::ProtoWriter;

fn field(name: &str, number: i32, ty: FieldType) -> FieldDesc {
    FieldDesc {
        name: name.to_string(),
        number,
        label: Some(Label::Optional),
        ty: Some(ty),
        type_ref: String::new(),
        oneof_index: None,
        proto3_optional: false,
        default_value: None,
    }
}

fn in_oneof(mut f: FieldDesc, index: i32) -> FieldDesc {
    f.oneof_index = Some(index);
    f
}

fn message(name: &str, fields: Vec<FieldDesc>, oneofs: Vec<&str>) -> MessageDesc {
    MessageDesc {
        name: name.to_string(),
        nested: Vec::new(),
        enums: Vec::new(),
        fields,
        oneofs: oneofs.into_iter().map(|n| OneofDesc { name: n.to_string() }).collect(),
        reserved_names: Vec::new(),
        reserved_ranges: Vec::new(),
    }
}

fn file(messages: Vec<MessageDesc>) -> FileDesc {
    FileDesc {
        name: "pkg.proto".to_string(),
        syntax: "proto3".to_string(),
        package: "pkg".to_string(),
        dependencies: Vec::new(),
        messages,
        enums: Vec::new(),
        services: Vec::new(),
    }
}

fn render(f: FileDesc) -> String {
    ProtoResult::new(f).expect("renders").value
}

const HEADER: &str = "syntax = \"proto3\";\n\npackage pkg;\n\n";

#[test]
fn scenario_two_plain_fields() {
    let m = message(
        "M",
        vec![field("a", 1, FieldType::Int32), field("b", 2, FieldType::Int32)],
        vec![],
    );
    assert_eq!(
        render(file(vec![m])),
        "syntax = \"proto3\";\n\npackage pkg;\n\nmessage M {\n  int32 a = 1;\n  int32 b = 2;\n}\n\n"
    );
}

#[test]
fn scenario_oneof_after_direct_fields() {
    let m = message(
        "M",
        vec![
            field("z", 3, FieldType::String),
            in_oneof(field("x", 1, FieldType::String), 0),
            in_oneof(field("y", 2, FieldType::String), 0),
        ],
        vec!["choice"],
    );
    let expected = format!(
        "{}message M {{\n  string z = 3;\n  oneof choice {{\n    string x = 1;\n    string y = 2;\n  }}\n}}\n\n",
        HEADER
    );
    assert_eq!(render(file(vec![m])), expected);
}

#[test]
fn scenario_synthetic_optional_inline() {
    let mut f = in_oneof(field("name", 4, FieldType::String), 0);
    f.proto3_optional = true;
    let m = message("M", vec![f], vec!["_name"]);
    let expected = format!("{}message M {{\n  optional string name = 4;\n}}\n\n", HEADER);
    assert_eq!(render(file(vec![m])), expected);
}

#[test]
fn direct_fields_keep_declaration_order_around_oneof_members() {
    let mut opt = in_oneof(field("o", 5, FieldType::Bool), 1);
    opt.proto3_optional = true;
    let m = message(
        "M",
        vec![
            in_oneof(field("x", 1, FieldType::Int64), 0),
            field("p", 7, FieldType::Bytes),
            opt,
            in_oneof(field("y", 2, FieldType::Int64), 0),
            field("q", 6, FieldType::Double),
        ],
        vec!["c", "_o"],
    );
    let expected = format!(
        "{}message M {{\n  bytes p = 7;\n  optional bool o = 5;\n  double q = 6;\n  oneof c {{\n    int64 x = 1;\n    int64 y = 2;\n  }}\n}}\n\n",
        HEADER
    );
    assert_eq!(render(file(vec![m])), expected);
}

#[test]
fn lone_real_oneof_member_gets_no_block() {
    let m = message("M", vec![in_oneof(field("x", 1, FieldType::Int32), 0)], vec!["c"]);
    let out = render(file(vec![m]));
    assert!(!out.contains("oneof"));
    assert_eq!(out, format!("{}message M {{\n}}\n\n", HEADER));
}

#[test]
fn oneof_blocks_follow_group_order() {
    let m = message(
        "M",
        vec![
            in_oneof(field("b1", 3, FieldType::Sint32), 1),
            in_oneof(field("a1", 1, FieldType::Fixed32), 0),
            in_oneof(field("b2", 4, FieldType::Sint64), 1),
            in_oneof(field("a2", 2, FieldType::Fixed64), 0),
        ],
        vec!["first", "second"],
    );
    let expected = format!(
        "{}message M {{\n  oneof first {{\n    fixed32 a1 = 1;\n    fixed64 a2 = 2;\n  }}\n  oneof second {{\n    sint32 b1 = 3;\n    sint64 b2 = 4;\n  }}\n}}\n\n",
        HEADER
    );
    assert_eq!(render(file(vec![m])), expected);
}

#[test]
fn labels_types_and_defaults() {
    let mut req = field("r", 1, FieldType::Uint32);
    req.label = Some(Label::Required);
    req.default_value = Some("7".to_string());
    let mut rep = field("s", 2, FieldType::Message);
    rep.label = Some(Label::Repeated);
    rep.type_ref = ".pkg.Other".to_string();
    let mut none = field("t", 3, FieldType::Enum);
    none.label = None;
    none.type_ref = ".pkg.Kind".to_string();
    let f4 = field("u", 4, FieldType::Sfixed32);
    let f5 = field("v", 5, FieldType::Sfixed64);
    let f6 = field("w", 6, FieldType::Float);
    let f7 = field("x", 7, FieldType::Uint64);
    let mut f8 = field("y", 536870911, FieldType::String);
    f8.default_value = Some("a\"b".to_string());
    let m = message("M", vec![req, rep, none, f4, f5, f6, f7, f8], vec![]);
    let expected = format!(
        "{}message M {{\n  required uint32 r = 1 [default =7];\n  repeated .pkg.Other s = 2;\n  .pkg.Kind t = 3;\n  sfixed32 u = 4;\n  sfixed64 v = 5;\n  float w = 6;\n  uint64 x = 7;\n  string y = 536870911 [default =a\"b];\n}}\n\n",
        HEADER
    );
    assert_eq!(render(file(vec![m])), expected);
}

#[test]
fn nested_messages_and_enums_indent() {
    let inner_enum = EnumDesc {
        name: "Kind".to_string(),
        values: vec![
            EnumValueDesc { name: "NONE".to_string(), number: 0 },
            EnumValueDesc { name: "NEG".to_string(), number: -12 },
            EnumValueDesc { name: "MIN".to_string(), number: i32::MIN },
        ],
    };
    let inner = message("Inner", vec![field("k", 1, FieldType::Int32)], vec![]);
    let mut outer = message("Outer", vec![field("i", 2, FieldType::Int32)], vec![]);
    outer.nested.push(inner);
    outer.enums.push(inner_enum);
    let mut f = file(vec![outer]);
    f.enums.push(EnumDesc {
        name: "Top".to_string(),
        values: vec![EnumValueDesc { name: "A".to_string(), number: 1 }],
    });
    let expected = format!(
        "{}message Outer {{\n  message Inner {{\n    int32 k = 1;\n  }}\n\n  enum Kind {{\n    NONE = 0;\n    NEG = -12;\n    MIN = -2147483648;\n  }}\n\n  int32 i = 2;\n}}\n\nenum Top {{\n  A = 1;\n}}\n\n",
        HEADER
    );
    assert_eq!(render(f), expected);
}

#[test]
fn imports_and_empty_package() {
    let mut f = file(vec![]);
    f.syntax = "proto2".to_string();
    f.package = String::new();
    f.dependencies = vec![
        Dependency { path: "a.proto".to_string(), is_public: false },
        Dependency { path: "b.proto".to_string(), is_public: true },
    ];
    assert_eq!(
        render(f),
        "syntax = \"proto2\";\n\npackage ;\n\nimport \"a.proto\";\nimport public \"b.proto\";\n\n"
    );
}

#[test]
fn empty_file_renders_header_only() {
    assert_eq!(render(file(vec![])), HEADER);
}

#[test]
fn service_is_refused() {
    let mut f = file(vec![message("M", vec![field("a", 1, FieldType::Int32)], vec![])]);
    f.services.push("Search".to_string());
    match ProtoResult::new(f) {
        Err(RenderError::Unsupported { construct, owner }) => {
            assert_eq!(construct, Construct::Service);
            assert_eq!(owner, "Search");
        }
        _ => panic!("expected a service error"),
    }
}

#[test]
fn reserved_name_is_refused() {
    let mut m = message("M", vec![], vec![]);
    m.reserved_names.push("old".to_string());
    match ProtoResult::new(file(vec![m])) {
        Err(RenderError::Unsupported { construct, owner }) => {
            assert_eq!(construct, Construct::ReservedName);
            assert_eq!(owner, "M");
        }
        _ => panic!("expected a reserved name error"),
    }
}

#[test]
fn reserved_range_in_nested_message_is_refused() {
    let mut inner = message("Inner", vec![], vec![]);
    inner.reserved_ranges.push(ReservedRange { start: 5, end: 9 });
    let mut outer = message("Outer", vec![], vec![]);
    outer.nested.push(inner);
    match ProtoResult::new(file(vec![outer])) {
        Err(RenderError::Unsupported { construct, owner }) => {
            assert_eq!(construct, Construct::ReservedRange);
            assert_eq!(owner, "Inner");
        }
        _ => panic!("expected a reserved range error"),
    }
}

#[test]
fn group_field_is_refused() {
    let m = message("M", vec![field("g", 1, FieldType::Group)], vec![]);
    match ProtoResult::new(file(vec![m])) {
        Err(RenderError::Unsupported { construct, owner }) => {
            assert_eq!(construct, Construct::GroupField);
            assert_eq!(owner, "g");
        }
        _ => panic!("expected a group error"),
    }
}

#[test]
fn missing_type_is_refused_inside_oneof_block() {
    let mut bad = in_oneof(field("b", 2, FieldType::Int32), 0);
    bad.ty = None;
    let m = message("M", vec![in_oneof(field("a", 1, FieldType::Int32), 0), bad], vec!["c"]);
    match ProtoResult::new(file(vec![m])) {
        Err(RenderError::MissingType { field }) => assert_eq!(field, "b"),
        _ => panic!("expected a missing type error"),
    }
}

#[test]
fn first_error_in_walk_order_wins() {
    let mut first = message("First", vec![field("g", 1, FieldType::Group)], vec![]);
    first.reserved_names.push("x".to_string());
    let second = message("Second", vec![field("h", 1, FieldType::Group)], vec![]);
    match ProtoResult::new(file(vec![first, second])) {
        Err(RenderError::Unsupported { construct, owner }) => {
            assert_eq!(construct, Construct::ReservedName);
            assert_eq!(owner, "First");
        }
        _ => panic!("expected the first message's error"),
    }
}

#[test]
fn generate_into_existing_writer() {
    let mut w = ProtoWriter::new();
    w.push_str("// x\n");
    let m = message("M", vec![field("a", 1, FieldType::Bool)], vec![]);
    assert!(w.generate_proto_file(&file(vec![m])).is_ok());
    assert_eq!(w.result(), format!("// x\n{}message M {{\n  bool a = 1;\n}}\n\n", HEADER));
}

#[test]
fn writer_operations() {
    let mut w = ProtoWriter::new();
    w.push_str_indented("a");
    w.indent();
    w.push('\n');
    w.push_str_indented("b");
    w.indent();
    w.push_str_indented("c");
    w.deindent();
    w.push_str_indented("d");
    w.deindent();
    w.push_int(-305);
    w.push_int(0);
    w.push_int(i32::MAX);
    assert_eq!(w.result(), "a\n  b    c  d-30502147483647");
    assert_eq!(w.indent, 0);
}

#[test]
fn field_roles() {
    let plain = field("a", 1, FieldType::Int32);
    assert_eq!(plain.role(), FieldRole::Plain);
    let member = in_oneof(field("b", 2, FieldType::Int32), 3);
    assert_eq!(member.role(), FieldRole::OneofMember(3));
    let mut opt = in_oneof(field("c", 3, FieldType::Int32), 0);
    opt.proto3_optional = true;
    assert_eq!(opt.role(), FieldRole::ExplicitOptional);
}

fn platforms() -> PlatformVersions {
    let v = |b: &str, m: &str| VersionInfo { beta: Some(b.to_string()), main: Some(m.to_string()) };
    PlatformVersions {
        darwin: Some(v("d-beta", "d-main")),
        linux: Some(VersionInfo { beta: None, main: Some("l-main".to_string()) }),
        windows: Some(v("w-beta", "w-main")),
    }
}

#[test]
fn version_selection() {
    let p = platforms();
    assert_eq!(Api::select_version(&p, "darwin", true), Some("d-beta".to_string()));
    assert_eq!(Api::select_version(&p, "darwin", false), Some("d-main".to_string()));
    assert_eq!(Api::select_version(&p, "linux", false), Some("l-main".to_string()));
    assert_eq!(Api::select_version(&p, "linux", true), None);
    assert_eq!(Api::select_version(&p, "windows", true), Some("w-beta".to_string()));
    assert_eq!(Api::select_version(&p, "amiga", false), Some("w-main".to_string()));
}

#[test]
fn manifest_address() {
    assert_eq!(
        Api::manifest_url("dofus", "linux", "6.0_1.2", true),
        "https://cytrus.cdn.ankama.com/dofus/releases/beta/linux/6.0_1.2.manifest"
    );
    assert_eq!(
        Api::manifest_url("wakfu", "windows", "v", false),
        "https://cytrus.cdn.ankama.com/wakfu/releases/main/windows/v.manifest"
    );
}

#[test]
fn text_comparison() {
    assert!(same_text("linux", "linux"));
    assert!(!same_text("linux", "linu"));
    assert!(!same_text("linux", "linuX"));
    assert!(same_text("", ""));
}
