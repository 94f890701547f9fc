# il2cpp_dump

The core of a dumper for IL2CPP images: it reads the tables of an image, works out where fields and
methods stand, and writes the texts that disassemblers and C++ projects take in. What the functions
do is stated in contracts and proved with Verus.

- `src/il2cpp/`: images. `base` maps addresses, `init` reads the tables, `code` finds method bodies,
  `field_layout` finds fields, `metadata` and `structures` hold what is read.
- `src/output/`: texts. `struct_names`, `c_types`, `struct_info`, `struct_text`, `header` and
  `method_info` make up the C header, `script` and `usages` the script for disassemblers,
  `signature` and `name_mangler` the names in it, `static_field_exporter` the report on static
  fields, `func_entries`, `cpp_scaffolding` and `templates` the C++ project, and `struct_generator`
  brings them together.
- `src/names.rs`, `src/text.rs`, `src/numeral.rs`, `src/sorted.rs`, `src/io.rs`: names, texts,
  numbers, sorted sets, and the bytes of a file.
- `tests/`: tests on concrete images.
- `app/`: writing the files of a dump.

What the library does not compute itself is handed to it: the names of types, the spelling of names
as identifiers (`names::Sanitizer`), the decoding of records whose layout depends on the version
(`il2cpp::records::RecordReader`), and the mapping of addresses while an image is read
(`il2cpp::records::AddressMap`). Versions are given in hundredths.
