use shadow_syscall::descriptor::{DescriptorTable, File, LegacyFile, NativeFile};
use shadow_syscall::handler::{SysCallArgs, SYS_FSTAT, SYS_MMAP, SYS_NEWFSTATAT, SYS_OPENAT};
use shadow_syscall::stat::Stat;
use shadow_syscall::trace::{decode, decode_args, schema, ArgKind, TypedArg};

fn native(id: u64) -> File {
    File::Native(NativeFile { id, metadata: Stat::with_size_and_mode(0, 0o600) })
}

#[test]
fn mmap_schema_and_decoding() {
    let s = schema(SYS_MMAP).unwrap();
    assert_eq!(s.ret, ArgKind::Pointer);
    assert_eq!(
        s.args,
        vec![
            ArgKind::Pointer,
            ArgKind::Size,
            ArgKind::ProtFlags,
            ArgKind::MapFlags,
            ArgKind::Int,
            ArgKind::Offset
        ]
    );
    let args = SysCallArgs {
        number: SYS_MMAP,
        args: [0x7000, 8192, 3, 0x22, u64::MAX, (-4096i64) as u64],
    };
    assert_eq!(
        decode_args(&args).unwrap(),
        vec![
            TypedArg::Address(0x7000),
            TypedArg::Size(8192),
            TypedArg::Bits(ArgKind::ProtFlags, 3),
            TypedArg::Bits(ArgKind::MapFlags, 0x22),
            TypedArg::Int(-1),
            TypedArg::Offset(-4096),
        ]
    );
}

#[test]
fn openat_and_fstat_decoding() {
    let args = SysCallArgs {
        number: SYS_OPENAT,
        args: [0xffff_ff9c, 0x4000, 0o2101, 0o644, 7, 7],
    };
    assert_eq!(
        decode_args(&args).unwrap(),
        vec![
            TypedArg::Int(-100),
            TypedArg::Path(0x4000),
            TypedArg::Bits(ArgKind::OpenFlags, 0o2101),
            TypedArg::Bits(ArgKind::FileMode, 0o644),
        ]
    );
    let f = SysCallArgs { number: SYS_FSTAT, args: [0x1_0000_0003, 0x1100, 0, 0, 0, 0] };
    assert_eq!(
        decode_args(&f).unwrap(),
        vec![TypedArg::UInt(3), TypedArg::StatPtr(0x1100)]
    );
    assert_eq!(schema(SYS_FSTAT).unwrap().ret, ArgKind::Int);
}

#[test]
fn schema_of_unhandled_and_argumentless_syscalls() {
    assert!(schema(4242).is_none());
    let none = SysCallArgs { number: 4242, args: [0; 6] };
    assert!(decode_args(&none).is_none());
    let s = schema(SYS_NEWFSTATAT).unwrap();
    assert!(s.args.is_empty());
    assert_eq!(decode(ArgKind::UInt, u64::MAX), TypedArg::UInt(u32::MAX));
}

#[test]
fn close_all_releases_each_native_object_once() {
    let mut t = DescriptorTable::new();
    t.insert(File::Legacy(LegacyFile { handle: 1 })).unwrap();
    t.insert(native(8)).unwrap();
    t.insert(native(9)).unwrap();
    t.duplicate(1).unwrap();
    t.remove(0).unwrap();
    let mut released = t.close_all();
    released.sort();
    assert_eq!(released, vec![8, 9]);
    assert!(t.get(1).is_err());
    assert_eq!(t.insert(native(10)), Ok(0));
    assert!(DescriptorTable::new().close_all().is_empty());
}
