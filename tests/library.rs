use tasm_lib::data_type::DataType;
use tasm_lib::dyn_malloc::DynMalloc;
use tasm_lib::library::Library;
use tasm_lib::list::UnsafeNew;

#[test]
fn importing_twice_gives_one_body() {
    let mut library = Library::new();
    let labels: Vec<String> = (0..3).map(|_| library.import(&DynMalloc)).collect();
    assert!(labels.iter().all(|l| l == "tasm_memory_dyn_malloc"));
    let code = library.all_imports();
    assert_eq!(code.matches("tasm_memory_dyn_malloc:").count(), 1);
}

#[test]
fn nested_and_direct_import_share_one_body() {
    let mut library = Library::new();
    let list_label = library.import(&UnsafeNew(DataType::U32));
    let malloc_label = library.import(&DynMalloc);
    assert_eq!(list_label, "tasm_list_unsafeimplu32_new___u32");
    assert_eq!(malloc_label, "tasm_memory_dyn_malloc");
    let code = library.all_imports();
    assert_eq!(code.matches("tasm_memory_dyn_malloc:").count(), 1);
    assert_eq!(code.matches("tasm_list_unsafeimplu32_new___u32:").count(), 1);
    assert!(code.contains("call tasm_memory_dyn_malloc"));
    let malloc_body = code.find("tasm_memory_dyn_malloc:").unwrap();
    let list_body = code.find("tasm_list_unsafeimplu32_new___u32:").unwrap();
    assert!(malloc_body < list_body);
}

#[test]
fn static_allocations_do_not_overlap() {
    let mut library = Library::with_preallocated_memory(65);
    let first = library.kmalloc(320);
    library.import(&DynMalloc);
    let second = library.kmalloc(1);
    let third = library.kmalloc(10);
    assert_eq!(first, 65);
    assert_eq!(second, 385);
    assert_eq!(third, 386);
    assert_eq!(library.free_pointer(), 396);
}

#[test]
fn static_memory_never_starts_at_the_allocator_cell() {
    let mut library = Library::new();
    assert_eq!(library.kmalloc(4), 1);
    let mut library = Library::with_preallocated_memory(0);
    assert_eq!(library.kmalloc(4), 1);
}

#[test]
fn library_without_imports_emits_nothing() {
    let library = Library::new();
    assert_eq!(library.all_imports(), "");
}
