use tarnos::boot::{
    block_driver_verdict, boot_plan, core_running, fat_verdict, find_module, first_core_running, module_name,
    running_concurrently, saw_preemption, seed, BootProgram, ConcurrencyStep, ConcurrencyWatch,
    Feature, Grants, PreemptionStep, PreemptionWatch,
};
use tarnos::abi::{CapIndex, Rights};
use tarnos::arch::percpu::new_table;
use tarnos::driver::block::BlockError;
use tarnos::fs::fat::FatError;
use tarnos::harness::checks::{
    assert_booted_once, criteria, extract_free_frame_counts, judge, scenarios, setup,
    smp_boot_check, Criterion, Disk, Scenario, SmpFailure,
};
use tarnos::harness::plan::{
    build_kernel, components, contents, disk_tasks, ensure_limine, iso, kernel_elf_path,
    mcopy_args, mformat_args, parse_command, run, run_scenario, user_elf_path, Arg, Command,
    Contents, DiskTask, FetchStep, Place, Task,
};
use tarnos::ipc::capability::KernelObjectRef;
use tarnos::task::process::BootModule;
use tarnos::text::{
    chars_of, contains, count_matches, lines, parse_u64, split_after, split_once, strip_prefix,
    to_decimal, to_hex, trim,
};

fn log(s: &str) -> Vec<char> {
    chars_of(s)
}

fn text(chars: &[char]) -> String {
    chars.iter().collect()
}

#[test]
fn text_is_searched_like_strings_are() {
    let t = log("abcabcab");
    assert!(contains(&t, "cab"));
    assert!(!contains(&t, "cc"));
    assert_eq!(count_matches(&t, "ab"), 3);
    assert_eq!(count_matches(&log("aaa"), "aa"), 1);
    let parts: Vec<String> = lines(&log("a\r\n\nb\rc\nd")).iter().map(|l| text(l)).collect();
    let expected: Vec<&str> = "a\r\n\nb\rc\nd".lines().collect();
    assert_eq!(parts, expected);
    let parts: Vec<String> = lines(&log("a\n")).iter().map(|l| text(l)).collect();
    assert_eq!(parts, vec!["a"]);
    assert_eq!(text(&split_after(&log("x=1=2"), "=").unwrap()), "1");
    let (a, b) = split_once(&log("k=v=w"), "=").unwrap();
    assert_eq!((text(&a), text(&b)), ("k".to_string(), "v=w".to_string()));
    assert!(split_once(&log("kv"), "=").is_none());
    assert_eq!(text(&strip_prefix(&log("[x] y"), "[x] ").unwrap()), "y");
    assert!(strip_prefix(&log("y"), "[x] ").is_none());
    assert_eq!(text(&trim(&log(" \t12\r\n"))), "12");
}

#[test]
fn numbers_are_read_and_spelled() {
    assert_eq!(parse_u64(&log("0")), Some(0));
    assert_eq!(parse_u64(&log("18446744073709551615")), Some(u64::MAX));
    assert_eq!(parse_u64(&log("18446744073709551616")), None);
    assert_eq!(parse_u64(&log("")), None);
    assert_eq!(parse_u64(&log("1x")), None);
    assert_eq!(parse_u64(&log("+7")), "+7".parse::<u64>().ok());
    assert_eq!(text(&to_decimal(0)), "0");
    assert_eq!(text(&to_decimal(u64::MAX)), u64::MAX.to_string());
    assert_eq!(text(&to_hex(0)), "0");
    assert_eq!(text(&to_hex(0xdead_beef)), "deadbeef");
}

#[test]
fn frame_counts_are_read_out_of_a_log() {
    let l = log("boot\n[memtest] free_frames=100\nx\n[memtest] free_frames= 98 \nfree_frames=abc\n");
    assert_eq!(extract_free_frame_counts(&l), vec![100, 98]);
}

#[test]
fn a_second_boot_is_noticed() {
    assert!(assert_booted_once(&log("TarnOS booting...\n")).is_ok());
    assert_eq!(assert_booted_once(&log("nothing")).err(), Some(0));
    assert_eq!(
        assert_booted_once(&log("TarnOS booting...\nTarnOS booting...\n")).err(),
        Some(2)
    );
}

const GOOD_SMP: &str = "[boot] MP info received (3 CPU(s), BSP LAPIC ID 0)\n\
[smp] core 0 ready\n[smp] core 1 ready\n[smp] core 2 ready\n\
[smp-test] core 0 spin_count=0\n[smp-test] core 1 spin_count=5000\n\
[smp-test] core 2 spin_count=7000\n[smp-test] boot check complete\n";

#[test]
fn cores_that_ran_are_counted() {
    assert_eq!(smp_boot_check(&log(GOOD_SMP)), Ok(3));
}

#[test]
fn each_way_to_fail_the_core_check_is_found() {
    let check = |s: String| smp_boot_check(&log(&s)).unwrap_err();
    assert_eq!(check("nothing".to_string()), SmpFailure::NoCpuCount);
    assert_eq!(
        check(GOOD_SMP.replace("[smp] core 2 ready\n", "")),
        SmpFailure::ReadyCount {
            expected: 3,
            found: 2
        }
    );
    assert_eq!(
        check(GOOD_SMP.replace("[smp-test] boot check complete", "")),
        SmpFailure::Unfinished
    );
    assert_eq!(
        check(GOOD_SMP.replace("[smp-test] core 2 spin_count=7000\n", "")),
        SmpFailure::SpinLines {
            expected: 3,
            found: 2
        }
    );
    assert_eq!(
        check(GOOD_SMP.replace("spin_count=7000", "spin_count=0")),
        SmpFailure::IdleCore
    );
    assert_eq!(
        check(GOOD_SMP.replace("spin_count=7000", "spin_count=5000001")),
        SmpFailure::Uneven {
            min: 5000,
            max: 5000001
        }
    );
    let lone = "MP info received (1 CPU(s))\ncore 0 ready\n[smp-test] core 0 spin_count=0\n\
                [smp-test] boot check complete\n";
    assert_eq!(check(lone.to_string()), SmpFailure::NoSecondCore);
}

#[test]
fn logs_are_judged() {
    let wanted = criteria(Scenario::FaultIsolation);
    let good = log(
        "TarnOS booting...\n[fault] pid 0 killed: page fault\n\
         [sched] last process exited, halting.\n",
    );
    assert_eq!(judge(&wanted, &good), Ok(()));
    let panicked = log("TarnOS booting...\n[KERNEL PANIC] x\n");
    assert!(judge(&wanted, &panicked).is_err());
    let frames = vec![Criterion::FramesReturned];
    let same = log("[memtest] free_frames=10\n[memtest] free_frames=10\n");
    assert_eq!(judge(&frames, &same), Ok(()));
    let leaked = log("[memtest] free_frames=10\n[memtest] free_frames=9\n");
    assert!(judge(&frames, &leaked).is_err());
}

#[test]
fn commands_are_read() {
    let args = |list: &[&str]| list.iter().map(|s| s.to_string()).collect::<Vec<String>>();
    assert!(matches!(parse_command(&args(&["build"])), Command::Build));
    assert!(matches!(parse_command(&args(&["iso"])), Command::Iso));
    assert!(matches!(
        parse_command(&args(&["run", "--debug"])),
        Command::Run {
            uefi: false,
            debug: true
        }
    ));
    assert!(matches!(parse_command(&args(&[])), Command::Usage(0)));
    assert!(matches!(parse_command(&args(&["what"])), Command::Usage(1)));
    match parse_command(&args(&["test-smp-regression"])) {
        Command::Test(list) => assert_eq!(
            list,
            vec![Scenario::SmpFaultIsolation, Scenario::SmpBlockingIpc]
        ),
        _ => panic!("a test is named"),
    }
    let all = scenarios(&"test-all".to_string()).unwrap();
    assert_eq!(all.len(), 30);
    assert!(!all.contains(&Scenario::KitchenSink));
    let one = |name: &str| scenarios(&name.to_string()).unwrap();
    assert_eq!(one("test-smp-kill-cross-core"), vec![Scenario::SmpKillCrossCore]);
    assert_eq!(one("test-block-boundary"), vec![Scenario::BlockBoundary]);
    assert_eq!(one("test-fat-boundary"), vec![Scenario::FatBoundary]);
    assert_eq!(one("test-kitchen-sink"), vec![Scenario::KitchenSink]);
    assert!(scenarios(&"nothing".to_string()).is_none());
}

#[test]
fn builds_and_runs_are_planned() {
    assert!(build_kernel(false, Some("fault-test"))
        .iter()
        .any(|a| *a == Arg::Text("fault-test")));
    assert!(components(Place::KernelElf, true).contains(&"release"));
    assert!(components(Place::KernelElf, false).contains(&"debug"));
    assert_eq!(
        kernel_elf_path(true),
        vec!["target", "x86_64-unknown-none", "release", "tarnos-kernel"]
    );
    assert_eq!(
        user_elf_path(false, "init"),
        vec!["target", "x86_64-tarnos-user", "debug", "init"]
    );
    assert_eq!(*iso().last().unwrap(), Task::InstallBios);
    assert_eq!(ensure_limine(true, true), Vec::<FetchStep>::new());
    assert_eq!(
        ensure_limine(false, true),
        vec![
            FetchStep::CreateBuildDir,
            FetchStep::RemoveCheckout,
            FetchStep::Clone
        ]
    );
    assert!(run(false, true).contains(&Arg::Path(Place::QemuLog)));
    assert!(!run(false, false).contains(&Arg::Path(Place::QemuLog)));
    let args = run_scenario(setup(Scenario::SmpBoot));
    assert!(args.contains(&Arg::Text("-smp")));
}

#[test]
fn boots_are_planned() {
    let plan = boot_plan(Feature::Normal, true, false);
    assert_eq!(plan.endpoints, 2);
    assert!(plan.prime_console);
    assert_eq!(plan.processes.len(), 1);
    assert_eq!(plan.processes[0].program, BootProgram::Init);
    assert!(plan.processes[0].grants.block);
    assert!(!plan.processes[0].grants.fs);
    assert_eq!(plan.consoles, 1);
    assert_eq!(plan.processes[0].grants.console, Some(0));
    assert_eq!(boot_plan(Feature::FaultInjection, true, true).processes.len(), 0);
    assert_eq!(boot_plan(Feature::FaultInjection, true, true).consoles, 0);
    let plan = boot_plan(Feature::BlockSyscall, true, false);
    assert_eq!((plan.endpoints, plan.consoles), (3, 2));
    assert_eq!(plan.processes[0].grants.console, Some(0));
    assert_eq!(plan.processes[0].grants.link, None);
    assert_eq!(plan.processes[1].grants.console, Some(1));
    assert_eq!(plan.processes[1].grants.link.map(|l| l.0), Some(2));
}

#[test]
fn grants_become_capabilities() {
    let caps = seed(Grants {
        console: Some(0),
        link: Some((1, Rights::from_bits_truncate(3))),
        block: false,
        fs: true,
    });
    assert_eq!(
        caps.get(CapIndex(0)).unwrap().object,
        KernelObjectRef::Endpoint(0)
    );
    assert_eq!(caps.get(CapIndex(0)).unwrap().rights.bits(), 1);
    assert_eq!(
        caps.get(CapIndex(1)).unwrap().object,
        KernelObjectRef::Endpoint(1)
    );
    assert_eq!(caps.get(CapIndex(1)).unwrap().rights.bits(), 3);
    assert!(caps.get(CapIndex(2)).is_err());
    assert_eq!(
        caps.get(CapIndex(3)).unwrap().object,
        KernelObjectRef::RootFilesystem
    );
    assert!(caps.get(CapIndex(4)).is_err());
}

#[test]
fn running_processes_are_found_on_their_cores() {
    let mut table = new_table();
    table[1].current = 77;
    table[3].current = 78;
    table[3].preempt_count = 2;
    assert_eq!(core_running(&table, 77), Some(1));
    assert_eq!(core_running(&table, 99), None);
    assert_eq!(running_concurrently(&table, 77, 78), Some((1, 3)));
    assert_eq!(running_concurrently(&table, 77, 79), None);
    assert!(saw_preemption(&table, 3));
    assert!(!saw_preemption(&table, 1));
}

#[test]
fn the_first_read_of_the_disk_is_judged() {
    let good: Vec<u8> = (0..512).map(|i| (i % 256) as u8).collect();
    assert_eq!(block_driver_verdict(Some(Ok(())), &good), "BLOCK_READ_OK");
    assert_eq!(
        block_driver_verdict(Some(Ok(())), &[9]),
        "BLOCK_READ_FAIL -- content mismatch"
    );
    assert_eq!(
        block_driver_verdict(Some(Err(BlockError::DeviceError)), &good),
        "BLOCK_READ_FAIL -- read_sectors error"
    );
    assert_eq!(
        block_driver_verdict(None, &good),
        "BLOCK_READ_FAIL -- with_device found no driver"
    );
}

#[test]
fn scenarios_have_their_machines() {
    let s = setup(Scenario::SmpKillCrossCore);
    assert_eq!((s.feature, s.smp, s.disk), (Some("kill-cross-core-test"), 4, None));
    let s = setup(Scenario::FatBoundary);
    assert_eq!((s.feature, s.smp, s.disk), (Some("fat-boundary-test"), 1, Some(Disk::Fat)));
    let args = run_scenario(s);
    assert!(args.contains(&Arg::Text("virtio-blk-pci-non-transitional,drive=disk0")));
    let args = run_scenario(setup(Scenario::SmpBoot));
    assert!(!args.contains(&Arg::Text("virtio-blk-pci-non-transitional,drive=disk0")));
    let good = log("TarnOS booting...\nKILL_CC_OK\n");
    assert_eq!(judge(&criteria(Scenario::SmpKillCrossCore), &good), Ok(()));
    let bad = log("TarnOS booting...\nKILL_CC_FAIL\n");
    assert!(judge(&criteria(Scenario::SmpKillCrossCore), &bad).is_err());
    let half = log("TarnOS booting...\nPCI_ENUM_OK\n");
    assert!(judge(&criteria(Scenario::BlockDriver), &half).is_err());
    let sink = log("TarnOS booting...\nKS_IPC__OK\nKS_HEAP_OK\nKS_LIFE_OK\nKS_KILL_OK\n");
    assert_eq!(judge(&criteria(Scenario::KitchenSink), &sink), Ok(()));
}

#[test]
fn disks_are_made() {
    let image = contents(Contents::PatternDisk);
    assert_eq!(image.len(), 64 * 512);
    assert!(image[..1024].iter().all(|b| *b == 0));
    assert!(image[1024..1536].iter().enumerate().all(|(i, b)| *b == (i % 256) as u8));
    assert!(image[1536..].iter().all(|b| *b == 0));
    assert_eq!(contents(Contents::Hello).len(), 46);
    assert!(contents(Contents::Hello).starts_with(b"TarnOS Milestone 12"));
    assert_eq!(contents(Contents::Bigfile).len(), 3000);
    assert_eq!(contents(Contents::Bigfile)[257], 1);
    assert_eq!(
        disk_tasks(Disk::Pattern),
        vec![DiskTask::Write(Place::DiskImage(Disk::Pattern), Contents::PatternDisk)]
    );
    assert_eq!(disk_tasks(Disk::Fat)[0], DiskTask::Format);
    assert_eq!(disk_tasks(Disk::Fat).len(), 5);
    assert!(mformat_args().contains(&Arg::Text("1440")));
    assert!(mcopy_args("HELLO.TXT").contains(&Arg::Path(Place::DiskFile("HELLO.TXT"))));
}

#[test]
fn the_known_files_are_judged() {
    let hello = Ok(contents(Contents::Hello));
    let big = Ok(contents(Contents::Bigfile));
    assert_eq!(fat_verdict(&hello, &big), "FAT_PARSE_OK");
    assert_eq!(fat_verdict(&big, &hello), "FAT_PARSE_FAIL");
    assert_eq!(fat_verdict(&Err(FatError::NoSuchFile), &big), "FAT_PARSE_FAIL");
    assert_eq!(fat_verdict(&hello, &Ok(vec![0; 2999])), "FAT_PARSE_FAIL");
}

#[test]
fn watches_give_up_in_the_end() {
    let mut table = new_table();
    let (mut watch, mut step) = ConcurrencyWatch::new();
    let mut looks = 0;
    while let ConcurrencyStep::Wait(ticks) = step {
        assert_eq!(ticks, 2);
        step = watch.look(&table, 1, 2);
        looks += 1;
    }
    assert_eq!((looks, step), (200, ConcurrencyStep::Never));
    table[3].current = 1;
    table[5].current = 2;
    assert_eq!(ConcurrencyWatch::new().0.look(&table, 1, 2), ConcurrencyStep::Seen(3, 5));

    let (mut watch, mut step) = PreemptionWatch::new();
    let mut looks = 0;
    while let PreemptionStep::Wait(ticks) = step {
        assert_eq!(ticks, 1);
        step = watch.look(&table, 7);
        looks += 1;
    }
    assert_eq!((looks, step), (200, PreemptionStep::NeverRan));
    let (mut watch, mut step) = PreemptionWatch::new();
    let mut looks = 0;
    while let PreemptionStep::Wait(_) = step {
        step = watch.look(&table, 1);
        looks += 1;
    }
    let core = 3;
    assert_eq!((looks, step), (401, PreemptionStep::Judged { core, preempted: false }));
    table[6].current = 1;
    assert_eq!(first_core_running(&table, 1), Some(3));
    assert_eq!(core_running(&table, 1), Some(6));
    assert_eq!(first_core_running(&table, 9), None);
    table[3].preempt_count = 1;
    let (mut watch, _) = PreemptionWatch::new();
    assert_eq!(watch.look(&table, 1), PreemptionStep::Wait(1));
    assert_eq!(watch.look(&table, 1), PreemptionStep::Judged { core, preempted: true });
}

#[test]
fn modules_are_found_by_name() {
    let module = |name: &str| BootModule {
        name: name.to_string(),
        data: Vec::new(),
    };
    let modules = vec![module("init"), module("fs-child")];
    assert_eq!(module_name(BootProgram::FsChild), Some("fs-child"));
    assert_eq!(module_name(BootProgram::Survivor), None);
    assert_eq!(find_module(&modules, "fs-child"), Some(1));
    assert_eq!(find_module(&modules, "block-child"), None);
    let plan = boot_plan(Feature::FatFixture, true, true);
    assert_eq!(plan.processes.len(), 1);
    assert!(plan.processes[0].grants.fs && !plan.processes[0].grants.block);
}
