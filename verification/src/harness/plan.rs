//! What is built, how the boot image is put together, and how the machine is
//! started: every command as a list of arguments, every file by its place
//! below the workspace.
use vstd::prelude::*;
use vstd::string::*;
use crate::driver::block::SECTOR_SIZE;
use crate::harness::checks;
use crate::harness::checks::{Disk, Scenario, Setup};
use crate::user::fixtures;

verus! {

/// A file or directory of the workspace.
#[derive(Debug, Clone, Copy, PartialEq, Eq)]
pub enum Place {
    /// The kernel as it was built.
    KernelElf,
    /// A user program as it was built.
    UserElf(&'static str),
    LimineConf,
    /// The boot loader's checkout, and a file in it.
    LimineDir,
    LimineFile(&'static str),
    /// The tree that becomes the image, and places in it.
    IsoRoot,
    BootDir,
    BootFile(&'static str),
    EfiBootDir,
    EfiFile(&'static str),
    /// The image.
    Iso,
    /// The serial log of a scenario.
    Log(&'static str),
    /// The machine's own log.
    QemuLog,
    /// The firmware's writable copy of its variables: for a run by hand, and
    /// for a scenario.
    OvmfVars,
    OvmfVarsTest,
    /// The image of a scenario's disk.
    DiskImage(Disk),
    /// A file that goes onto a disk.
    DiskFile(&'static str),
}

/// One argument of a command.
#[derive(Debug, Clone, Copy, PartialEq, Eq)]
pub enum Arg {
    Text(&'static str),
    Number(u32),
    /// A file of the workspace.
    Path(Place),
    /// A text with a file of the workspace right behind it.
    Prefixed(&'static str, Place),
    /// A text with the firmware's code right behind it.
    Firmware(&'static str),
}

/// One step of putting the image together.
#[derive(Debug, Clone, Copy, PartialEq, Eq)]
pub enum Task {
    BuildKernel,
    BuildUser(&'static str),
    /// Makes sure that the boot loader is there.
    EnsureLimine,
    CreateDir(Place),
    Copy(Place, Place),
    /// Runs the image builder with [`xorriso_args`].
    MakeIso,
    /// Makes the image bootable with [`bios_install_args`].
    InstallBios,
}

/// The directory that a profile builds into.
pub open spec fn profile(release: bool) -> &'static str {
    if release {
        "release"
    } else {
        "debug"
    }
}

pub fn profile_dir_name(release: bool) -> (r: &'static str)
    ensures
        r == profile(release),
{
    if release {
        "release"
    } else {
        "debug"
    }
}

/// The way to a place from the root of the workspace.
pub open spec fn way_to(place: Place, release: bool) -> Seq<&'static str> {
    match place {
        Place::KernelElf => seq!["target", "x86_64-unknown-none", profile(release), "tarnos-kernel"],
        Place::UserElf(package) => seq!["target", "x86_64-tarnos-user", profile(release), package],
        Place::LimineConf => seq!["limine.conf"],
        Place::LimineDir => seq!["build", "limine"],
        Place::LimineFile(name) => seq!["build", "limine", name],
        Place::IsoRoot => seq!["build", "iso_root"],
        Place::BootDir => seq!["build", "iso_root", "boot"],
        Place::BootFile(name) => seq!["build", "iso_root", "boot", name],
        Place::EfiBootDir => seq!["build", "iso_root", "EFI", "BOOT"],
        Place::EfiFile(name) => seq!["build", "iso_root", "EFI", "BOOT", name],
        Place::Iso => seq!["build", "tarnos.iso"],
        Place::Log(name) => seq!["build", name],
        Place::QemuLog => seq!["build", "qemu.log"],
        Place::OvmfVars => seq!["build", "OVMF_VARS.fd"],
        Place::OvmfVarsTest => seq!["build", "OVMF_VARS_test.fd"],
        Place::DiskImage(Disk::Pattern) => seq!["build", "test-disk.img"],
        Place::DiskImage(Disk::Fat) => seq!["build", "fat-disk.img"],
        Place::DiskFile(name) => seq!["build", name],
    }
}

/// The way to a place, name by name.
pub fn components(place: Place, release: bool) -> (r: Vec<&'static str>)
    ensures
        r@ == way_to(place, release),
{
    match place {
        Place::KernelElf => vec![
            "target",
            "x86_64-unknown-none",
            profile_dir_name(release),
            "tarnos-kernel",
        ],
        Place::UserElf(package) => vec![
            "target",
            "x86_64-tarnos-user",
            profile_dir_name(release),
            package,
        ],
        Place::LimineConf => vec!["limine.conf"],
        Place::LimineDir => vec!["build", "limine"],
        Place::LimineFile(name) => vec!["build", "limine", name],
        Place::IsoRoot => vec!["build", "iso_root"],
        Place::BootDir => vec!["build", "iso_root", "boot"],
        Place::BootFile(name) => vec!["build", "iso_root", "boot", name],
        Place::EfiBootDir => vec!["build", "iso_root", "EFI", "BOOT"],
        Place::EfiFile(name) => vec!["build", "iso_root", "EFI", "BOOT", name],
        Place::Iso => vec!["build", "tarnos.iso"],
        Place::Log(name) => vec!["build", name],
        Place::QemuLog => vec!["build", "qemu.log"],
        Place::OvmfVars => vec!["build", "OVMF_VARS.fd"],
        Place::OvmfVarsTest => vec!["build", "OVMF_VARS_test.fd"],
        Place::DiskImage(Disk::Pattern) => vec!["build", "test-disk.img"],
        Place::DiskImage(Disk::Fat) => vec!["build", "fat-disk.img"],
        Place::DiskFile(name) => vec!["build", name],
    }
}

pub fn kernel_elf_path(release: bool) -> (r: Vec<&'static str>)
    ensures
        r@ == way_to(Place::KernelElf, release),
{
    components(Place::KernelElf, release)
}

pub fn user_elf_path(release: bool, package: &'static str) -> (r: Vec<&'static str>)
    ensures
        r@ == way_to(Place::UserElf(package), release),
{
    components(Place::UserElf(package), release)
}

/// The user programs that every image ships: the first process, which the
/// kernel starts itself, every program that can be spawned by name, and the
/// two that a scenario starts in place of the first process.
pub open spec fn user_crates() -> Seq<&'static str> {
    seq!["init", "echo-child", "exit-code-child", "heap-child", "block-child", "fs-child"]
}

/// The flags that the kernel is compiled with.
pub fn kernel_rustflags() -> (r: &'static str)
    ensures
        r@ == "-C relocation-model=static"@,
{
    "-C relocation-model=static"
}

/// The arguments that build the kernel.
pub open spec fn kernel_args(release: bool, feature: Option<&'static str>) -> Seq<Arg> {
    seq![
        Arg::Text("build"),
        Arg::Text("-p"),
        Arg::Text("tarnos-kernel"),
        Arg::Text("--target"),
        Arg::Text("x86_64-unknown-none"),
        Arg::Text("-Zbuild-std=core,alloc,compiler_builtins"),
        Arg::Text("-Zbuild-std-features=compiler-builtins-mem"),
    ] + (if release {
        seq![Arg::Text("--release")]
    } else {
        Seq::empty()
    }) + match feature {
        Some(name) => seq![Arg::Text("--features"), Arg::Text(name)],
        None => Seq::empty(),
    }
}

pub fn build_kernel(release: bool, feature: Option<&'static str>) -> (r: Vec<Arg>)
    ensures
        r@ == kernel_args(release, feature),
{
    let mut args = vec![
        Arg::Text("build"),
        Arg::Text("-p"),
        Arg::Text("tarnos-kernel"),
        Arg::Text("--target"),
        Arg::Text("x86_64-unknown-none"),
        Arg::Text("-Zbuild-std=core,alloc,compiler_builtins"),
        Arg::Text("-Zbuild-std-features=compiler-builtins-mem"),
    ];
    if release {
        args.push(Arg::Text("--release"));
    }
    match feature {
        Some(name) => {
            args.push(Arg::Text("--features"));
            args.push(Arg::Text(name));
        },
        None => {},
    }
    assert(args@ =~= kernel_args(release, feature));
    args
}

/// The arguments that build a user program.
pub open spec fn user_args(release: bool, package: &'static str) -> Seq<Arg> {
    seq![
        Arg::Text("build"),
        Arg::Text("-p"),
        Arg::Text(package),
        Arg::Text("--target"),
        Arg::Text("targets/x86_64-tarnos-user.json"),
        Arg::Text("-Zjson-target-spec"),
        Arg::Text("-Zbuild-std=core,alloc,compiler_builtins"),
        Arg::Text("-Zbuild-std-features=compiler-builtins-mem"),
    ] + if release {
        seq![Arg::Text("--release")]
    } else {
        Seq::empty()
    }
}

pub fn build_user_crate(release: bool, package: &'static str) -> (r: Vec<Arg>)
    ensures
        r@ == user_args(release, package),
{
    let mut args = vec![
        Arg::Text("build"),
        Arg::Text("-p"),
        Arg::Text(package),
        Arg::Text("--target"),
        Arg::Text("targets/x86_64-tarnos-user.json"),
        Arg::Text("-Zjson-target-spec"),
        Arg::Text("-Zbuild-std=core,alloc,compiler_builtins"),
        Arg::Text("-Zbuild-std-features=compiler-builtins-mem"),
    ];
    if release {
        args.push(Arg::Text("--release"));
    }
    assert(args@ =~= user_args(release, package));
    args
}

/// The steps that compile everything.
pub open spec fn build_tasks() -> Seq<Task> {
    seq![
        Task::BuildKernel,
        Task::BuildUser("init"),
        Task::BuildUser("echo-child"),
        Task::BuildUser("exit-code-child"),
        Task::BuildUser("heap-child"),
        Task::BuildUser("block-child"),
        Task::BuildUser("fs-child"),
    ]
}

pub fn build() -> (r: Vec<Task>)
    ensures
        r@ == build_tasks(),
{
    vec![
        Task::BuildKernel,
        Task::BuildUser("init"),
        Task::BuildUser("echo-child"),
        Task::BuildUser("exit-code-child"),
        Task::BuildUser("heap-child"),
        Task::BuildUser("block-child"),
        Task::BuildUser("fs-child"),
    ]
}

/// The steps that put the image together: compile, get the boot loader, lay
/// the tree out, copy every file to its place, build the image, and make it
/// bootable.
pub open spec fn iso_tasks() -> Seq<Task> {
    build_tasks() + seq![
        Task::EnsureLimine,
        Task::CreateDir(Place::BootDir),
        Task::CreateDir(Place::EfiBootDir),
        Task::Copy(Place::KernelElf, Place::BootFile("kernel")),
        Task::Copy(Place::UserElf("init"), Place::BootFile("init")),
        Task::Copy(Place::UserElf("echo-child"), Place::BootFile("echo-child")),
        Task::Copy(Place::UserElf("exit-code-child"), Place::BootFile("exit-code-child")),
        Task::Copy(Place::UserElf("heap-child"), Place::BootFile("heap-child")),
        Task::Copy(Place::UserElf("block-child"), Place::BootFile("block-child")),
        Task::Copy(Place::UserElf("fs-child"), Place::BootFile("fs-child")),
        Task::Copy(Place::LimineConf, Place::BootFile("limine.conf")),
        Task::Copy(Place::LimineFile("limine-bios.sys"), Place::BootFile("limine-bios.sys")),
        Task::Copy(
            Place::LimineFile("limine-bios-cd.bin"),
            Place::BootFile("limine-bios-cd.bin"),
        ),
        Task::Copy(
            Place::LimineFile("limine-uefi-cd.bin"),
            Place::BootFile("limine-uefi-cd.bin"),
        ),
        Task::Copy(Place::LimineFile("BOOTX64.EFI"), Place::EfiFile("BOOTX64.EFI")),
        Task::MakeIso,
        Task::InstallBios,
    ]
}

pub fn iso() -> (r: Vec<Task>)
    ensures
        r@ == iso_tasks(),
{
    let mut tasks = build();
    let mut rest = vec![
        Task::EnsureLimine,
        Task::CreateDir(Place::BootDir),
        Task::CreateDir(Place::EfiBootDir),
        Task::Copy(Place::KernelElf, Place::BootFile("kernel")),
        Task::Copy(Place::UserElf("init"), Place::BootFile("init")),
        Task::Copy(Place::UserElf("echo-child"), Place::BootFile("echo-child")),
        Task::Copy(Place::UserElf("exit-code-child"), Place::BootFile("exit-code-child")),
        Task::Copy(Place::UserElf("heap-child"), Place::BootFile("heap-child")),
        Task::Copy(Place::UserElf("block-child"), Place::BootFile("block-child")),
        Task::Copy(Place::UserElf("fs-child"), Place::BootFile("fs-child")),
        Task::Copy(Place::LimineConf, Place::BootFile("limine.conf")),
        Task::Copy(Place::LimineFile("limine-bios.sys"), Place::BootFile("limine-bios.sys")),
        Task::Copy(
            Place::LimineFile("limine-bios-cd.bin"),
            Place::BootFile("limine-bios-cd.bin"),
        ),
        Task::Copy(
            Place::LimineFile("limine-uefi-cd.bin"),
            Place::BootFile("limine-uefi-cd.bin"),
        ),
        Task::Copy(Place::LimineFile("BOOTX64.EFI"), Place::EfiFile("BOOTX64.EFI")),
        Task::MakeIso,
        Task::InstallBios,
    ];
    tasks.append(&mut rest);
    assert(tasks@ =~= iso_tasks());
    tasks
}

/// The arguments of the image builder.
pub open spec fn xorriso_list() -> Seq<Arg> {
    seq![
        Arg::Text("-as"),
        Arg::Text("mkisofs"),
        Arg::Text("-R"),
        Arg::Text("-r"),
        Arg::Text("-J"),
        Arg::Text("-b"),
        Arg::Text("boot/limine-bios-cd.bin"),
        Arg::Text("-no-emul-boot"),
        Arg::Text("-boot-load-size"),
        Arg::Text("4"),
        Arg::Text("-boot-info-table"),
        Arg::Text("--efi-boot"),
        Arg::Text("boot/limine-uefi-cd.bin"),
        Arg::Text("-efi-boot-part"),
        Arg::Path(Place::BootFile("limine-uefi-cd.bin")),
        Arg::Text("--protective-msdos-label"),
        Arg::Path(Place::IsoRoot),
        Arg::Text("-o"),
        Arg::Path(Place::Iso),
    ]
}

pub fn xorriso_args() -> (r: Vec<Arg>)
    ensures
        r@ == xorriso_list(),
{
    vec![
        Arg::Text("-as"),
        Arg::Text("mkisofs"),
        Arg::Text("-R"),
        Arg::Text("-r"),
        Arg::Text("-J"),
        Arg::Text("-b"),
        Arg::Text("boot/limine-bios-cd.bin"),
        Arg::Text("-no-emul-boot"),
        Arg::Text("-boot-load-size"),
        Arg::Text("4"),
        Arg::Text("-boot-info-table"),
        Arg::Text("--efi-boot"),
        Arg::Text("boot/limine-uefi-cd.bin"),
        Arg::Text("-efi-boot-part"),
        Arg::Path(Place::BootFile("limine-uefi-cd.bin")),
        Arg::Text("--protective-msdos-label"),
        Arg::Path(Place::IsoRoot),
        Arg::Text("-o"),
        Arg::Path(Place::Iso),
    ]
}

/// The arguments of the boot loader's own tool.
pub fn bios_install_args() -> (r: Vec<Arg>)
    ensures
        r@ == seq![Arg::Text("bios-install"), Arg::Path(Place::Iso)],
{
    vec![Arg::Text("bios-install"), Arg::Path(Place::Iso)]
}

/// Whether the image puts `to` together before it is built: some earlier
/// step copies there.
pub open spec fn copied_before(tasks: Seq<Task>, to: Place, before: int) -> bool {
    exists|i: int|
        0 <= i < before && ((#[trigger] tasks[i]) matches Task::Copy(_, target) && target == to)
}

/// The image is built after every file that it names was copied, and made
/// bootable after it was built; everything that is copied out of a build was
/// built before.
pub proof fn law_image_is_complete()
    ensures
        ({
            let tasks = iso_tasks();
            &&& tasks[22] == Task::MakeIso
            &&& tasks[23] == Task::InstallBios
            &&& tasks.len() == 24
            &&& copied_before(tasks, Place::BootFile("kernel"), 22)
            &&& copied_before(tasks, Place::BootFile("limine.conf"), 22)
            &&& copied_before(tasks, Place::BootFile("limine-bios-cd.bin"), 22)
            &&& copied_before(tasks, Place::BootFile("limine-uefi-cd.bin"), 22)
            &&& copied_before(tasks, Place::EfiFile("BOOTX64.EFI"), 22)
            &&& forall|k: int|
                0 <= k < user_crates().len() ==> copied_before(
                    tasks,
                    Place::BootFile(#[trigger] user_crates()[k]),
                    22,
                ) && tasks[k + 1] == Task::BuildUser(user_crates()[k])
        }),
{
    let tasks = iso_tasks();
    assert(tasks[10] == Task::Copy(Place::KernelElf, Place::BootFile("kernel")));
    assert(tasks[11] == Task::Copy(Place::UserElf("init"), Place::BootFile("init")));
    assert(tasks[12] == Task::Copy(Place::UserElf("echo-child"), Place::BootFile("echo-child")));
    assert(tasks[13] == Task::Copy(
        Place::UserElf("exit-code-child"),
        Place::BootFile("exit-code-child"),
    ));
    assert(tasks[14] == Task::Copy(Place::UserElf("heap-child"), Place::BootFile("heap-child")));
    assert(tasks[15] == Task::Copy(Place::UserElf("block-child"), Place::BootFile("block-child")));
    assert(tasks[16] == Task::Copy(Place::UserElf("fs-child"), Place::BootFile("fs-child")));
    assert(tasks[17] == Task::Copy(Place::LimineConf, Place::BootFile("limine.conf")));
    assert(tasks[19] == Task::Copy(
        Place::LimineFile("limine-bios-cd.bin"),
        Place::BootFile("limine-bios-cd.bin"),
    ));
    assert(tasks[20] == Task::Copy(
        Place::LimineFile("limine-uefi-cd.bin"),
        Place::BootFile("limine-uefi-cd.bin"),
    ));
    assert(tasks[21] == Task::Copy(
        Place::LimineFile("BOOTX64.EFI"),
        Place::EfiFile("BOOTX64.EFI"),
    ));
}

/// One step of getting the boot loader.
#[derive(Debug, Clone, Copy, PartialEq, Eq, Structural)]
pub enum FetchStep {
    CreateBuildDir,
    RemoveCheckout,
    Clone,
}

/// What has to be done to have a checkout of the boot loader: nothing if its
/// boot sector is there; otherwise whatever is there is replaced.
pub fn ensure_limine(has_boot_sector: bool, has_dir: bool) -> (r: Vec<FetchStep>)
    ensures
        r@ == if has_boot_sector {
            Seq::<FetchStep>::empty()
        } else if has_dir {
            seq![FetchStep::CreateBuildDir, FetchStep::RemoveCheckout, FetchStep::Clone]
        } else {
            seq![FetchStep::CreateBuildDir, FetchStep::Clone]
        },
{
    if has_boot_sector {
        Vec::new()
    } else if has_dir {
        vec![FetchStep::CreateBuildDir, FetchStep::RemoveCheckout, FetchStep::Clone]
    } else {
        vec![FetchStep::CreateBuildDir, FetchStep::Clone]
    }
}

/// The arguments that clone the boot loader.
pub fn clone_args() -> (r: Vec<Arg>)
    ensures
        r@ == seq![
            Arg::Text("clone"),
            Arg::Text("--depth"),
            Arg::Text("1"),
            Arg::Text("--branch"),
            Arg::Text("v9.x-binary"),
            Arg::Text("https://github.com/limine-bootloader/limine"),
            Arg::Path(Place::LimineDir),
        ],
{
    vec![
        Arg::Text("clone"),
        Arg::Text("--depth"),
        Arg::Text("1"),
        Arg::Text("--branch"),
        Arg::Text("v9.x-binary"),
        Arg::Text("https://github.com/limine-bootloader/limine"),
        Arg::Path(Place::LimineDir),
    ]
}

/// Where the firmware's code may be, best first.
pub fn find_ovmf_code() -> (r: Vec<&'static str>)
    ensures
        r@ == seq![
            "/usr/share/OVMF/OVMF_CODE_4M.fd",
            "/usr/share/OVMF/OVMF_CODE.fd",
            "/usr/share/ovmf/OVMF.fd",
        ],
{
    vec![
        "/usr/share/OVMF/OVMF_CODE_4M.fd",
        "/usr/share/OVMF/OVMF_CODE.fd",
        "/usr/share/ovmf/OVMF.fd",
    ]
}

/// Where the firmware's variables may be, best first.
pub fn find_ovmf_vars_template() -> (r: Vec<&'static str>)
    ensures
        r@ == seq!["/usr/share/OVMF/OVMF_VARS_4M.fd", "/usr/share/OVMF/OVMF_VARS.fd"],
{
    vec!["/usr/share/OVMF/OVMF_VARS_4M.fd", "/usr/share/OVMF/OVMF_VARS.fd"]
}

/// The arguments that every machine ends its basic list with.
pub open spec fn boot_args() -> Seq<Arg> {
    seq![
        Arg::Text("-display"),
        Arg::Text("none"),
        Arg::Text("-cdrom"),
        Arg::Path(Place::Iso),
        Arg::Text("-boot"),
        Arg::Text("d"),
        Arg::Text("-no-reboot"),
        Arg::Text("-no-shutdown"),
    ]
}

/// The firmware's two drives.
pub open spec fn uefi_args(vars: Place) -> Seq<Arg> {
    seq![
        Arg::Text("-drive"),
        Arg::Firmware("if=pflash,format=raw,readonly=on,file="),
        Arg::Text("-drive"),
        Arg::Prefixed("if=pflash,format=raw,file=", vars),
    ]
}

/// The arguments of a run by hand.
pub open spec fn run_args(uefi: bool, debug: bool) -> Seq<Arg> {
    seq![
        Arg::Text("-M"),
        Arg::Text("q35"),
        Arg::Text("-m"),
        Arg::Text("512M"),
        Arg::Text("-serial"),
        Arg::Text("stdio"),
    ] + boot_args() + (if uefi {
        uefi_args(Place::OvmfVars)
    } else {
        Seq::empty()
    }) + if debug {
        seq![
            Arg::Text("-d"),
            Arg::Text("int,guest_errors"),
            Arg::Text("-D"),
            Arg::Path(Place::QemuLog),
        ]
    } else {
        Seq::empty()
    }
}

fn push_boot_args(args: &mut Vec<Arg>)
    ensures
        final(args)@ == old(args)@ + boot_args(),
{
    args.push(Arg::Text("-display"));
    args.push(Arg::Text("none"));
    args.push(Arg::Text("-cdrom"));
    args.push(Arg::Path(Place::Iso));
    args.push(Arg::Text("-boot"));
    args.push(Arg::Text("d"));
    args.push(Arg::Text("-no-reboot"));
    args.push(Arg::Text("-no-shutdown"));
    assert(args@ =~= old(args)@ + boot_args());
}

fn push_uefi_args(args: &mut Vec<Arg>, vars: Place)
    ensures
        final(args)@ == old(args)@ + uefi_args(vars),
{
    args.push(Arg::Text("-drive"));
    args.push(Arg::Firmware("if=pflash,format=raw,readonly=on,file="));
    args.push(Arg::Text("-drive"));
    args.push(Arg::Prefixed("if=pflash,format=raw,file=", vars));
    assert(args@ =~= old(args)@ + uefi_args(vars));
}

/// How the machine is started by hand: its serial line on the terminal, no
/// display, from the image.
pub fn run(uefi: bool, debug: bool) -> (r: Vec<Arg>)
    ensures
        r@ == run_args(uefi, debug),
{
    let mut args = vec![
        Arg::Text("-M"),
        Arg::Text("q35"),
        Arg::Text("-m"),
        Arg::Text("512M"),
        Arg::Text("-serial"),
        Arg::Text("stdio"),
    ];
    push_boot_args(&mut args);
    if uefi {
        push_uefi_args(&mut args, Place::OvmfVars);
    }
    if debug {
        args.push(Arg::Text("-d"));
        args.push(Arg::Text("int,guest_errors"));
        args.push(Arg::Text("-D"));
        args.push(Arg::Path(Place::QemuLog));
    }
    assert(args@ =~= run_args(uefi, debug));
    args
}

/// The arguments of a scenario's machine.
pub open spec fn scenario_args(setup: Setup) -> Seq<Arg> {
    seq![
        Arg::Text("-M"),
        Arg::Text("q35"),
        Arg::Text("-m"),
        Arg::Text("512M"),
        Arg::Text("-smp"),
        Arg::Number(setup.smp),
        Arg::Text("-serial"),
        Arg::Prefixed("file:", Place::Log(setup.log_name)),
    ] + boot_args() + (if setup.uefi {
        uefi_args(Place::OvmfVarsTest)
    } else {
        Seq::empty()
    }) + match setup.disk {
        Some(disk) => disk_args(disk),
        None => Seq::empty(),
    }
}

/// A disk on the virtio bus.
pub open spec fn disk_args(disk: Disk) -> Seq<Arg> {
    seq![
        Arg::Text("-drive"),
        Arg::Prefixed("if=none,format=raw,id=disk0,file=", Place::DiskImage(disk)),
        Arg::Text("-device"),
        Arg::Text("virtio-blk-pci-non-transitional,drive=disk0"),
    ]
}

/// What is written to a file.
#[derive(Debug, Clone, Copy, PartialEq, Eq, Structural)]
pub enum Contents {
    /// A whole disk with the pattern in one sector.
    PatternDisk,
    /// The short text.
    Hello,
    /// The longer file.
    Bigfile,
}

/// How the image of a disk comes to be.
#[derive(Debug, Clone, Copy, PartialEq, Eq)]
pub enum DiskTask {
    /// Writes a file with these [`contents`].
    Write(Place, Contents),
    /// Formats the volume with [`mformat_args`].
    Format,
    /// Copies a file onto the volume with [`mcopy_args`].
    CopyIn(&'static str),
}

pub open spec fn disk_list(disk: Disk) -> Seq<DiskTask> {
    match disk {
        Disk::Pattern => seq![
            DiskTask::Write(Place::DiskImage(Disk::Pattern), Contents::PatternDisk),
        ],
        Disk::Fat => seq![
            DiskTask::Format,
            DiskTask::Write(Place::DiskFile("HELLO.TXT"), Contents::Hello),
            DiskTask::CopyIn("HELLO.TXT"),
            DiskTask::Write(Place::DiskFile("BIGFILE.TXT"), Contents::Bigfile),
            DiskTask::CopyIn("BIGFILE.TXT"),
        ],
    }
}

/// The steps that make the image of a disk.
pub fn disk_tasks(disk: Disk) -> (r: Vec<DiskTask>)
    ensures
        r@ == disk_list(disk),
{
    match disk {
        Disk::Pattern => vec![
            DiskTask::Write(Place::DiskImage(Disk::Pattern), Contents::PatternDisk),
        ],
        Disk::Fat => vec![
            DiskTask::Format,
            DiskTask::Write(Place::DiskFile("HELLO.TXT"), Contents::Hello),
            DiskTask::CopyIn("HELLO.TXT"),
            DiskTask::Write(Place::DiskFile("BIGFILE.TXT"), Contents::Bigfile),
            DiskTask::CopyIn("BIGFILE.TXT"),
        ],
    }
}

/// How a FAT12 floppy of 1.44 MB is formatted.
pub fn mformat_args() -> (r: Vec<Arg>)
    ensures
        r@ == seq![
            Arg::Text("-C"),
            Arg::Text("-f"),
            Arg::Text("1440"),
            Arg::Text("-i"),
            Arg::Path(Place::DiskImage(Disk::Fat)),
            Arg::Text("::"),
        ],
{
    vec![
        Arg::Text("-C"),
        Arg::Text("-f"),
        Arg::Text("1440"),
        Arg::Text("-i"),
        Arg::Path(Place::DiskImage(Disk::Fat)),
        Arg::Text("::"),
    ]
}

/// How a file is copied to the root of that volume.
pub fn mcopy_args(name: &'static str) -> (r: Vec<Arg>)
    ensures
        r@ == seq![
            Arg::Text("-i"),
            Arg::Path(Place::DiskImage(Disk::Fat)),
            Arg::Path(Place::DiskFile(name)),
            Arg::Text("::"),
        ],
{
    vec![
        Arg::Text("-i"),
        Arg::Path(Place::DiskImage(Disk::Fat)),
        Arg::Path(Place::DiskFile(name)),
        Arg::Text("::"),
    ]
}

/// How many sectors the pattern disk has, and which of them holds the
/// pattern.
pub const PATTERN_DISK_SECTORS: usize = 64;

pub const PATTERN_LBA: usize = 2;

/// The counting pattern.
pub open spec fn pattern(len: nat) -> Seq<u8> {
    Seq::new(len, |i: int| (i % 256) as u8)
}

/// Every byte of the pattern disk is zero but those of the one sector.
pub open spec fn pattern_disk() -> Seq<u8> {
    Seq::new(
        (PATTERN_DISK_SECTORS * SECTOR_SIZE) as nat,
        |i: int|
            if PATTERN_LBA * SECTOR_SIZE <= i < (PATTERN_LBA + 1) * SECTOR_SIZE {
                ((i - PATTERN_LBA * SECTOR_SIZE) % 256) as u8
            } else {
                0u8
            },
    )
}

/// The image of the disk with the pattern.
pub fn create_test_disk_image() -> (r: Vec<u8>)
    ensures
        r@ == pattern_disk(),
{
    let len: usize = PATTERN_DISK_SECTORS * SECTOR_SIZE;
    let start: usize = PATTERN_LBA * SECTOR_SIZE;
    let mut image: Vec<u8> = Vec::new();
    let mut i: usize = 0;
    while i < len
        invariant
            len == PATTERN_DISK_SECTORS * SECTOR_SIZE,
            start == PATTERN_LBA * SECTOR_SIZE,
            i <= len,
            image@ == pattern_disk().take(i as int),
        decreases len - i,
    {
        let ghost before = image@;
        if start <= i && i < start + SECTOR_SIZE {
            image.push(((i - start) % 256) as u8);
        } else {
            image.push(0);
        }
        i = i + 1;
        assert(image@ =~= pattern_disk().take(i as int));
    }
    assert(image@ =~= pattern_disk());
    image
}

/// The longer of the two files on the volume: the counting pattern, over
/// several clusters.
pub fn bigfile() -> (r: Vec<u8>)
    ensures
        r@ == pattern(fixtures::BIGFILE_LEN as nat),
{
    let mut data: Vec<u8> = Vec::new();
    let mut i: usize = 0;
    while i < fixtures::BIGFILE_LEN
        invariant
            i <= fixtures::BIGFILE_LEN,
            data@ == pattern(i as nat),
        decreases fixtures::BIGFILE_LEN - i,
    {
        data.push((i % 256) as u8);
        i = i + 1;
        assert(data@ =~= pattern(i as nat));
    }
    data
}

/// The bytes of a file that is written.
pub fn contents(which: Contents) -> (r: Vec<u8>)
    ensures
        r@ == match which {
            Contents::PatternDisk => pattern_disk(),
            Contents::Hello => vstd::utf8::encode_utf8(fixtures::hello_text()),
            Contents::Bigfile => pattern(fixtures::BIGFILE_LEN as nat),
        },
{
    match which {
        Contents::PatternDisk => create_test_disk_image(),
        Contents::Hello => fixtures::hello_bytes(),
        Contents::Bigfile => bigfile(),
    }
}

fn push_disk_args(args: &mut Vec<Arg>, disk: Disk)
    ensures
        final(args)@ == old(args)@ + disk_args(disk),
{
    args.push(Arg::Text("-drive"));
    args.push(Arg::Prefixed("if=none,format=raw,id=disk0,file=", Place::DiskImage(disk)));
    args.push(Arg::Text("-device"));
    args.push(Arg::Text("virtio-blk-pci-non-transitional,drive=disk0"));
    assert(args@ =~= old(args)@ + disk_args(disk));
}

/// How the machine of a scenario is started: with an explicit number of
/// cores, and its serial line in a file.
pub fn run_scenario(setup: Setup) -> (r: Vec<Arg>)
    ensures
        r@ == scenario_args(setup),
{
    let mut args = vec![
        Arg::Text("-M"),
        Arg::Text("q35"),
        Arg::Text("-m"),
        Arg::Text("512M"),
        Arg::Text("-smp"),
        Arg::Number(setup.smp),
        Arg::Text("-serial"),
        Arg::Prefixed("file:", Place::Log(setup.log_name)),
    ];
    push_boot_args(&mut args);
    if setup.uefi {
        push_uefi_args(&mut args, Place::OvmfVarsTest);
    }
    match setup.disk {
        Some(disk) => push_disk_args(&mut args, disk),
        None => {},
    }
    assert(args@ =~= scenario_args(setup));
    args
}

/// Whether some flag is `wanted`.
pub open spec fn has_flag(flags: Seq<String>, wanted: Seq<char>) -> bool {
    exists|i: int| 0 <= i < flags.len() && (#[trigger] flags[i])@ == wanted
}

fn flagged(flags: &Vec<String>, wanted: &str) -> (r: bool)
    ensures
        r == has_flag(flags@, wanted@),
{
    let name: String = wanted.to_owned();
    let mut i: usize = 0;
    while i < flags.len()
        invariant
            i <= flags@.len(),
            name@ == wanted@,
            forall|k: int| 0 <= k < i ==> (#[trigger] flags@[k])@ != wanted@,
        decreases flags@.len() - i,
    {
        if flags[i] == name {
            return true;
        }
        i = i + 1;
    }
    false
}

/// What the user asked for.
pub enum Command {
    Build,
    Iso,
    Run { uefi: bool, debug: bool },
    Test(Vec<Scenario>),
    /// To be told what there is; with this exit code.
    Usage(i32),
}

/// Reads the command line: the command, then its flags.
pub fn parse_command(args: &Vec<String>) -> (r: Command)
    ensures
        ({
            let name = if args@.len() > 0 {
                args@[0]@
            } else {
                ""@
            };
            if name == "build"@ {
                r == Command::Build
            } else if name == "iso"@ {
                r == Command::Iso
            } else if name == "run"@ {
                r == (Command::Run {
                    uefi: has_flag(args@.skip(1), "--uefi"@),
                    debug: has_flag(args@.skip(1), "--debug"@),
                })
            } else {
                match checks::scenarios_of(name) {
                    Some(list) => r matches Command::Test(tests) && tests@ == list,
                    None => r == Command::Usage(
                        if name == ""@ {
                            0i32
                        } else {
                            1i32
                        },
                    ),
                }
            }
        }),
{
    let name: String = if args.len() > 0 {
        args[0].clone()
    } else {
        "".to_owned()
    };
    if name == "build".to_owned() {
        return Command::Build;
    }
    if name == "iso".to_owned() {
        return Command::Iso;
    }
    if name == "run".to_owned() {
        proof {
            reveal_strlit("");
            reveal_strlit("run");
            assert(""@.len() == 0 && "run"@.len() == 3);
            assert(args@.len() > 0);
        }
        let mut flags: Vec<String> = Vec::new();
        let mut i: usize = 1;
        assert(args@.skip(1).take(0) =~= Seq::<String>::empty());
        while i < args.len()
            invariant
                1 <= i,
                args@.len() >= 1,
                i <= args@.len(),
                flags@ =~= args@.skip(1).take(i - 1),
            decreases args@.len() - i,
        {
            flags.push(args[i].clone());
            i = i + 1;
        }
        assert(args@.skip(1).take(i - 1) =~= args@.skip(1));
        return Command::Run {
            uefi: flagged(&flags, "--uefi"),
            debug: flagged(&flags, "--debug"),
        };
    }
    match checks::scenarios(&name) {
        Some(tests) => Command::Test(tests),
        None => {
            if name == "".to_owned() {
                Command::Usage(0)
            } else {
                Command::Usage(1)
            }
        },
    }
}

} // verus!
