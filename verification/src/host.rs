//! Facts about the host: its identity, its disks and its network interfaces.

use crate::count;
use crate::count::{plus, times};
use crate::model::Environment;
use crate::text;
use crate::text::{
    chars_of, contains, parse_unsigned, same_text, same_text_ignoring_case, split, split_words,
    starts_with,
};
use vstd::prelude::*;

verus! {

/// Whether an endpoint belongs to Tigris.
pub open spec fn tigris(endpoint: Seq<char>) -> bool {
    text::contains_text(endpoint, "tigrisdata.com"@) || text::contains_text(
        endpoint,
        "tigris.dev"@,
    ) || endpoint == "https://t3.storage.dev"@
}

/// Tells whether an endpoint belongs to Tigris.
pub fn is_tigris_endpoint(endpoint: &str) -> (r: bool)
    ensures
        r == tigris(endpoint@),
{
    contains(endpoint, "tigrisdata.com") || contains(endpoint, "tigris.dev") || same_text(
        endpoint,
        "https://t3.storage.dev",
    )
}

/// The name under which an object store is reported.
pub open spec fn store_label(provider: Seq<char>, endpoint: Seq<char>) -> Seq<char> {
    if text::same_ignoring_case(provider, "aws"@) && tigris(endpoint) {
        "Tigris"@
    } else {
        provider
    }
}

/// Returns the name under which an object store is reported.
pub fn object_store_name(provider: &str, endpoint: &str) -> (r: String)
    ensures
        r@ == store_label(provider@, endpoint@),
{
    if same_text_ignoring_case(provider, "aws") && is_tigris_endpoint(endpoint) {
        "Tigris".to_string()
    } else {
        provider.to_string()
    }
}

/// What the operating system reports of the host.
pub struct HostFacts {
    pub runner_type: Option<String>,
    pub hostname: Option<String>,
    pub cpu_model: Option<String>,
    pub cpu_cores: usize,
    pub ram_bytes: u64,
    /// Name and mount point of each disk.
    pub disks: Vec<(String, String)>,
    pub os_name: Option<String>,
    pub os_version: Option<String>,
    pub kernel: Option<String>,
}

/// The text, or a stand-in where there is none.
pub open spec fn text_or(value: Option<String>, other: Seq<char>) -> Seq<char> {
    match value {
        Some(v) => v@,
        None => other,
    }
}

fn or_text(value: &Option<String>, other: &str) -> (r: String)
    ensures
        r@ == text_or(*value, other@),
{
    match value {
        Some(v) => v.clone(),
        None => other.to_string(),
    }
}

/// The first `k` disks, each as name and mount point, separated by commas.
pub open spec fn disk_list(disks: Seq<(String, String)>, k: int) -> Seq<char>
    decreases k,
{
    if k <= 0 {
        Seq::empty()
    } else {
        let disk = disks[k - 1].0@ + ":"@ + disks[k - 1].1@;
        if k == 1 {
            disk
        } else {
            disk_list(disks, k - 1) + ", "@ + disk
        }
    }
}

/// Writes down the disks, each as name and mount point.
fn describe_disks(disks: &Vec<(String, String)>) -> (r: String)
    ensures
        r@ == disk_list(disks@, disks.len() as int),
{
    let mut out: String = String::new();
    let mut i: usize = 0;
    while i < disks.len()
        invariant
            i <= disks.len(),
            out@ == disk_list(disks@, i as int),
        decreases disks.len() - i,
    {
        let disk = disks[i].0.clone().concat(":").concat(disks[i].1.as_str());
        if i == 0 {
            out = disk;
        } else {
            out = out.concat(", ").concat(disk.as_str());
        }
        i += 1;
    }
    out
}

/// Builds the environment of a benchmark from what the host reports and the store's settings.
pub fn inspect_environment(
    facts: &HostFacts,
    provider: &str,
    endpoint: &str,
    region: &str,
) -> (r: Environment)
    ensures
        r.runner_type@ == text_or(facts.runner_type, "local"@),
        r.hostname@ == text_or(facts.hostname, "unknown"@),
        r.cpu_model@ == text_or(facts.cpu_model, "unknown"@),
        r.cpu_cores == facts.cpu_cores,
        r.ram_bytes == facts.ram_bytes,
        r.local_disk@ == disk_list(facts.disks@, facts.disks.len() as int),
        r.os@ == text_or(facts.os_name, "unknown"@) + " "@ + text_or(facts.os_version, "unknown"@),
        r.kernel@ == text_or(facts.kernel, "unknown"@),
        r.object_store@ == store_label(provider@, endpoint@),
        r.endpoint@ == endpoint@,
        r.region@ == region@,
{
    let version = or_text(&facts.os_version, "unknown");
    Environment {
        runner_type: or_text(&facts.runner_type, "local"),
        hostname: or_text(&facts.hostname, "unknown"),
        cpu_model: or_text(&facts.cpu_model, "unknown"),
        cpu_cores: facts.cpu_cores,
        ram_bytes: facts.ram_bytes,
        local_disk: describe_disks(&facts.disks),
        os: or_text(&facts.os_name, "unknown").concat(" ").concat(version.as_str()),
        kernel: or_text(&facts.kernel, "unknown"),
        object_store: object_store_name(provider, endpoint),
        endpoint: endpoint.to_string(),
        region: region.to_string(),
    }
}

/// Why an environment may not publish results.
#[derive(Debug, Clone, Copy, PartialEq, Eq, Structural)]
pub enum EnvironmentFault {
    RunnerType,
    CpuCount,
    Memory,
    ObjectStore,
    Endpoint,
    Region,
}

/// The least memory of a published run: 60 GiB.
pub const PUBLISHED_RAM_BYTES: u64 = 64_424_509_440;

/// The runner of a published workload.
pub open spec fn published_runner() -> Seq<char> {
    "warp-ubuntu-latest-arm64-32x"@
}

/// The processors of a published workload.
pub const PUBLISHED_CPUS: usize = 32;

/// The first rule that the object store of a published workload breaks: Tigris is reached at its
/// own endpoint, from wherever it is nearest, and Amazon S3 in one region.
pub open spec fn store_fault(e: Environment) -> Option<EnvironmentFault> {
    if e.object_store@ == "Tigris"@ {
        if e.endpoint@ != "https://t3.storage.dev"@ {
            Some(EnvironmentFault::Endpoint)
        } else if e.region@ != "auto"@ {
            Some(EnvironmentFault::Region)
        } else {
            None
        }
    } else if !text::same_ignoring_case(e.object_store@, "aws"@) {
        Some(EnvironmentFault::ObjectStore)
    } else if e.region@ != "us-east-1"@ {
        Some(EnvironmentFault::Region)
    } else {
        None
    }
}

/// The first rule that the environment of a published workload breaks.
pub open spec fn environment_fault(e: Environment) -> Option<EnvironmentFault> {
    if e.runner_type@ != published_runner() {
        Some(EnvironmentFault::RunnerType)
    } else if e.cpu_cores != PUBLISHED_CPUS {
        Some(EnvironmentFault::CpuCount)
    } else if e.ram_bytes < PUBLISHED_RAM_BYTES {
        Some(EnvironmentFault::Memory)
    } else {
        store_fault(e)
    }
}

fn verify_store(e: &Environment) -> (r: Result<(), EnvironmentFault>)
    ensures
        r == (match store_fault(*e) {
            Some(fault) => Err(fault),
            None => Ok(()),
        }),
{
    if same_text(e.object_store.as_str(), "Tigris") {
        if !same_text(e.endpoint.as_str(), "https://t3.storage.dev") {
            return Err(EnvironmentFault::Endpoint);
        }
        if !same_text(e.region.as_str(), "auto") {
            return Err(EnvironmentFault::Region);
        }
        return Ok(());
    }
    if !same_text_ignoring_case(e.object_store.as_str(), "aws") {
        return Err(EnvironmentFault::ObjectStore);
    }
    if !same_text(e.region.as_str(), "us-east-1") {
        return Err(EnvironmentFault::Region);
    }
    Ok(())
}

/// Checks that an environment may publish full-scale results.
pub fn verify_environment(environment: &Environment) -> (r: Result<(), EnvironmentFault>)
    ensures
        r == (match environment_fault(*environment) {
            Some(fault) => Err(fault),
            None => Ok(()),
        }),
{
    if !same_text(environment.runner_type.as_str(), "warp-ubuntu-latest-arm64-32x") {
        return Err(EnvironmentFault::RunnerType);
    }
    if environment.cpu_cores != PUBLISHED_CPUS {
        return Err(EnvironmentFault::CpuCount);
    }
    if environment.ram_bytes < PUBLISHED_RAM_BYTES {
        return Err(EnvironmentFault::Memory);
    }
    verify_store(environment)
}

/// The processors of a published suite.
pub const SUITE_CPUS: usize = 16;

/// The first rule that the environment of a published suite breaks.
pub open spec fn suite_environment_fault(e: Environment) -> Option<EnvironmentFault> {
    if e.runner_type@ != "warp-ubuntu-latest-x64-16x"@ {
        Some(EnvironmentFault::RunnerType)
    } else if e.cpu_cores != SUITE_CPUS {
        Some(EnvironmentFault::CpuCount)
    } else if e.ram_bytes < PUBLISHED_RAM_BYTES {
        Some(EnvironmentFault::Memory)
    } else if e.object_store@ != "Tigris"@ {
        Some(EnvironmentFault::ObjectStore)
    } else if !text::contains_text(e.endpoint@, "fly.storage.tigris.dev"@) {
        Some(EnvironmentFault::Endpoint)
    } else if e.region@ != "fra"@ {
        Some(EnvironmentFault::Region)
    } else {
        None
    }
}

/// Checks that an environment may publish a suite; a smoke run may use any environment.
pub fn verify_suite_environment(environment: &Environment, smoke: bool) -> (r: Result<
    (),
    EnvironmentFault,
>)
    ensures
        r == (if smoke {
            Ok(())
        } else {
            match suite_environment_fault(*environment) {
                Some(fault) => Err(fault),
                None => Ok(()),
            }
        }),
{
    if smoke {
        return Ok(());
    }
    if !same_text(environment.runner_type.as_str(), "warp-ubuntu-latest-x64-16x") {
        return Err(EnvironmentFault::RunnerType);
    }
    if environment.cpu_cores != SUITE_CPUS {
        return Err(EnvironmentFault::CpuCount);
    }
    if environment.ram_bytes < PUBLISHED_RAM_BYTES {
        return Err(EnvironmentFault::Memory);
    }
    if !same_text(environment.object_store.as_str(), "Tigris") {
        return Err(EnvironmentFault::ObjectStore);
    }
    if !contains(environment.endpoint.as_str(), "fly.storage.tigris.dev") {
        return Err(EnvironmentFault::Endpoint);
    }
    if !same_text(environment.region.as_str(), "fra") {
        return Err(EnvironmentFault::Region);
    }
    Ok(())
}

/// Whether a block device is a whole physical disk.
pub open spec fn physical_disk(name: Seq<char>) -> bool {
    if text::has_prefix(name, "loop"@) || text::has_prefix(name, "ram"@) || text::has_prefix(
        name,
        "dm-"@,
    ) {
        false
    } else if text::has_prefix(name, "nvme"@) || text::has_prefix(name, "mmcblk"@) {
        !name.contains('p')
    } else if text::has_prefix(name, "sd"@) || text::has_prefix(name, "vd"@) || text::has_prefix(
        name,
        "xvd"@,
    ) {
        !(name.len() > 0 && text::is_digit(name.last()))
    } else {
        true
    }
}

fn holds(chars: &Vec<char>, c: char) -> (r: bool)
    ensures
        r == chars@.contains(c),
{
    let mut i: usize = 0;
    while i < chars.len()
        invariant
            i <= chars.len(),
            forall|k: int| 0 <= k < i ==> chars@[k] != c,
        decreases chars.len() - i,
    {
        if chars[i] == c {
            assert(chars@.contains(chars@[i as int]));
            return true;
        }
        i += 1;
    }
    false
}

/// Tells whether a block device is a whole physical disk.
pub fn is_physical_disk(name: &str) -> (r: bool)
    ensures
        r == physical_disk(name@),
{
    if starts_with(name, "loop") || starts_with(name, "ram") || starts_with(name, "dm-") {
        return false;
    }
    let chars = chars_of(name);
    if starts_with(name, "nvme") || starts_with(name, "mmcblk") {
        return !holds(&chars, 'p');
    }
    if starts_with(name, "sd") || starts_with(name, "vd") || starts_with(name, "xvd") {
        if chars.len() == 0 {
            return true;
        }
        let last = chars[chars.len() - 1];
        return !('0' <= last && last <= '9');
    }
    true
}

/// Disk traffic since the host started.
#[derive(Debug, Clone, Copy, PartialEq, Eq, Structural)]
pub struct DiskTotals {
    pub read_bytes: u64,
    pub write_bytes: u64,
    pub read_operations: u64,
    pub write_operations: u64,
}

/// A field as a number, zero where it is none.
pub open spec fn number_or_zero(field: Seq<char>) -> u64 {
    match text::unsigned_value(field, u64::MAX as nat) {
        Some(n) => n as u64,
        None => 0,
    }
}

fn number_of(field: &str) -> (r: u64)
    ensures
        r == number_or_zero(field@),
{
    match parse_unsigned(field, u64::MAX) {
        Some(n) => n,
        None => 0,
    }
}

/// The totals with one line of disk statistics added.
///
/// Lines of fewer than fourteen fields and of other devices than whole disks add nothing; sectors
/// are 512 bytes.
pub open spec fn with_disk_line(totals: DiskTotals, fields: Seq<Seq<char>>) -> DiskTotals {
    if fields.len() < 14 || !physical_disk(fields[2]) {
        totals
    } else {
        DiskTotals {
            read_bytes: count::capped_sum(
                totals.read_bytes,
                count::capped_product(number_or_zero(fields[5]), 512),
            ),
            write_bytes: count::capped_sum(
                totals.write_bytes,
                count::capped_product(number_or_zero(fields[9]), 512),
            ),
            read_operations: count::capped_sum(totals.read_operations, number_or_zero(fields[3])),
            write_operations: count::capped_sum(totals.write_operations, number_or_zero(fields[7])),
        }
    }
}

/// The totals of the first `k` lines of disk statistics.
pub open spec fn disk_totals(lines: Seq<Seq<char>>, k: int) -> DiskTotals
    decreases k,
{
    if k <= 0 {
        DiskTotals { read_bytes: 0, write_bytes: 0, read_operations: 0, write_operations: 0 }
    } else {
        with_disk_line(disk_totals(lines, k - 1), text::words(lines[k - 1]))
    }
}

/// Adds up the traffic of all whole disks in Linux disk statistics.
pub fn linux_disk_totals(contents: &str) -> (r: DiskTotals)
    ensures
        r == disk_totals(
            text::pieces(contents@, '\n'),
            text::pieces(contents@, '\n').len() as int,
        ),
{
    let lines = split(contents, '\n');
    let ghost all = text::pieces(contents@, '\n');
    let mut total = DiskTotals {
        read_bytes: 0,
        write_bytes: 0,
        read_operations: 0,
        write_operations: 0,
    };
    let mut i: usize = 0;
    while i < lines.len()
        invariant
            i <= lines.len(),
            text::texts(lines@) == all,
            total == disk_totals(all, i as int),
        decreases lines.len() - i,
    {
        let fields = split_words(lines[i].as_str());
        proof {
            assert(all[i as int] == lines@[i as int]@);
            let words = text::words(all[i as int]);
            assert(text::texts(fields@) == words);
            assert(words.len() == fields.len());
            assert forall|k: int| 0 <= k < fields.len() implies words[k] == (
            #[trigger] fields@[k])@ by {}
        }
        if fields.len() >= 14 && is_physical_disk(fields[2].as_str()) {
            let read_ops: u64 = number_of(fields[3].as_str());
            let read_sectors: u64 = number_of(fields[5].as_str());
            let write_ops: u64 = number_of(fields[7].as_str());
            let write_sectors: u64 = number_of(fields[9].as_str());
            total = DiskTotals {
                read_bytes: plus(total.read_bytes, times(read_sectors, 512)),
                write_bytes: plus(total.write_bytes, times(write_sectors, 512)),
                read_operations: plus(total.read_operations, read_ops),
                write_operations: plus(total.write_operations, write_ops),
            };
        }
        i += 1;
    }
    assert(lines.len() == all.len());
    total
}

/// The read and write calls after one line of a process's I/O statistics.
pub open spec fn with_io_line(totals: (u64, u64), fields: Seq<Seq<char>>) -> (u64, u64) {
    if fields.len() < 2 {
        totals
    } else if fields[0] == "syscr:"@ {
        (number_or_zero(fields[1]), totals.1)
    } else if fields[0] == "syscw:"@ {
        (totals.0, number_or_zero(fields[1]))
    } else {
        totals
    }
}

/// The read and write calls after the first `k` lines of a process's I/O statistics.
pub open spec fn io_operations(lines: Seq<Seq<char>>, k: int) -> (u64, u64)
    decreases k,
{
    if k <= 0 {
        (0, 0)
    } else {
        with_io_line(io_operations(lines, k - 1), text::words(lines[k - 1]))
    }
}

/// Reads the numbers of read and write calls from a process's I/O statistics.
pub fn linux_io_operations(contents: &str) -> (r: (u64, u64))
    ensures
        r == io_operations(
            text::pieces(contents@, '\n'),
            text::pieces(contents@, '\n').len() as int,
        ),
{
    let lines = split(contents, '\n');
    let ghost all = text::pieces(contents@, '\n');
    let mut reads: u64 = 0;
    let mut writes: u64 = 0;
    let mut i: usize = 0;
    while i < lines.len()
        invariant
            i <= lines.len(),
            text::texts(lines@) == all,
            (reads, writes) == io_operations(all, i as int),
        decreases lines.len() - i,
    {
        let fields = split_words(lines[i].as_str());
        proof {
            assert(all[i as int] == lines@[i as int]@);
            let words = text::words(all[i as int]);
            assert(text::texts(fields@) == words);
            assert(words.len() == fields.len());
            assert forall|k: int| 0 <= k < fields.len() implies words[k] == (
            #[trigger] fields@[k])@ by {}
            reveal_strlit("syscr:");
            reveal_strlit("syscw:");
            assert("syscr:"@[4] != "syscw:"@[4]);
        }
        if fields.len() >= 2 {
            if same_text(fields[0].as_str(), "syscr:") {
                reads = number_of(fields[1].as_str());
            } else if same_text(fields[0].as_str(), "syscw:") {
                writes = number_of(fields[1].as_str());
            }
        }
        i += 1;
    }
    assert(lines.len() == all.len());
    (reads, writes)
}

/// Traffic of one network interface.
pub struct InterfaceTotals {
    pub name: String,
    pub received: u64,
    pub sent: u64,
}

/// The traffic of the first `k` interfaces without the loopback interface.
pub open spec fn external_traffic(interfaces: Seq<InterfaceTotals>, k: int) -> (u64, u64)
    decreases k,
{
    if k <= 0 {
        (0, 0)
    } else {
        let (received, sent) = external_traffic(interfaces, k - 1);
        if interfaces[k - 1].name@ == "lo"@ {
            (received, sent)
        } else {
            (
                count::capped_sum(received, interfaces[k - 1].received),
                count::capped_sum(sent, interfaces[k - 1].sent),
            )
        }
    }
}

/// Adds up the received and sent bytes of all interfaces but the loopback interface.
pub fn network_totals(interfaces: &Vec<InterfaceTotals>) -> (r: (u64, u64))
    ensures
        r == external_traffic(interfaces@, interfaces.len() as int),
{
    let mut received: u64 = 0;
    let mut sent: u64 = 0;
    let mut i: usize = 0;
    while i < interfaces.len()
        invariant
            i <= interfaces.len(),
            (received, sent) == external_traffic(interfaces@, i as int),
        decreases interfaces.len() - i,
    {
        if !same_text(interfaces[i].name.as_str(), "lo") {
            received = plus(received, interfaces[i].received);
            sent = plus(sent, interfaces[i].sent);
        }
        i += 1;
    }
    (received, sent)
}

/// One reading of a database metric.
#[derive(Debug, Clone, Copy, PartialEq, Eq, Structural)]
pub enum MetricReading {
    Counter(u64),
    Gauge(i64),
    UpDownCounter(i64),
    Histogram,
}

/// The sum of the counters among the first `k` readings.
pub open spec fn counter_sum(readings: Seq<MetricReading>, k: int) -> nat
    decreases k,
{
    if k <= 0 {
        0
    } else {
        counter_sum(readings, k - 1) + (match readings[k - 1] {
            MetricReading::Counter(value) => value as nat,
            _ => 0,
        })
    }
}

proof fn counter_sum_grows(readings: Seq<MetricReading>, k: int)
    requires
        0 <= k <= readings.len(),
    ensures
        counter_sum(readings, k) <= counter_sum(readings, readings.len() as int),
    decreases readings.len() - k,
{
    if k < readings.len() {
        counter_sum_grows(readings, k + 1);
    }
}

/// Adds up the counters among the readings of one metric.
pub fn counter_value(readings: &Vec<MetricReading>) -> (r: u64)
    requires
        counter_sum(readings@, readings.len() as int) <= u64::MAX,
    ensures
        r == counter_sum(readings@, readings.len() as int),
{
    let mut sum: u64 = 0;
    let mut i: usize = 0;
    while i < readings.len()
        invariant
            i <= readings.len(),
            sum == counter_sum(readings@, i as int),
            counter_sum(readings@, readings.len() as int) <= u64::MAX,
        decreases readings.len() - i,
    {
        proof {
            counter_sum_grows(readings@, i + 1);
        }
        if let MetricReading::Counter(value) = readings[i] {
            sum = sum + value;
        }
        i += 1;
    }
    sum
}

/// A run may be published from the published runner alone, with its 32 cores and 60 GiB, against
/// Tigris at its global endpoint or against Amazon in its eastern region.
pub proof fn published_environments_are_judged(e: Environment)
    ensures
        environment_fault(e) is None <==> {
            &&& e.runner_type@ == "warp-ubuntu-latest-arm64-32x"@
            &&& e.cpu_cores == 32
            &&& e.ram_bytes >= 64_424_509_440
            &&& e.object_store@ == "Tigris"@ ==> e.endpoint@ == "https://t3.storage.dev"@
                && e.region@ == "auto"@
            &&& e.object_store@ != "Tigris"@ ==> text::same_ignoring_case(e.object_store@, "aws"@)
                && e.region@ == "us-east-1"@
        },
        suite_environment_fault(e) is None <==> {
            &&& e.runner_type@ == "warp-ubuntu-latest-x64-16x"@
            &&& e.cpu_cores == 16
            &&& e.ram_bytes >= 64_424_509_440
            &&& e.object_store@ == "Tigris"@
            &&& text::contains_text(e.endpoint@, "fly.storage.tigris.dev"@)
            &&& e.region@ == "fra"@
        },
{
}

/// A line of a physical disk adds its reads and writes, and its sectors of 512 bytes; any other
/// line adds nothing.
pub proof fn disk_lines_are_counted(t: DiskTotals, fields: Seq<Seq<char>>)
    requires
        fields.len() >= 14 ==> {
            &&& t.read_bytes + number_or_zero(fields[5]) * 512 <= u64::MAX
            &&& t.write_bytes + number_or_zero(fields[9]) * 512 <= u64::MAX
            &&& t.read_operations + number_or_zero(fields[3]) <= u64::MAX
            &&& t.write_operations + number_or_zero(fields[7]) <= u64::MAX
        },
    ensures
        fields.len() < 14 || !physical_disk(fields[2]) ==> with_disk_line(t, fields) == t,
        fields.len() >= 14 && physical_disk(fields[2]) ==> {
            let n = with_disk_line(t, fields);
            &&& n.read_operations == t.read_operations + number_or_zero(fields[3])
            &&& n.read_bytes == t.read_bytes + number_or_zero(fields[5]) * 512
            &&& n.write_operations == t.write_operations + number_or_zero(fields[7])
            &&& n.write_bytes == t.write_bytes + number_or_zero(fields[9]) * 512
        },
{
}

/// Every line counts once, whatever comes before or after it.
pub proof fn every_disk_line_counts(lines: Seq<Seq<char>>, k: int)
    requires
        0 < k <= lines.len(),
    ensures
        disk_totals(lines, k) == with_disk_line(
            disk_totals(lines, k - 1),
            text::words(lines[k - 1]),
        ),
        disk_totals(lines, 0) == (DiskTotals {
            read_bytes: 0,
            write_bytes: 0,
            read_operations: 0,
            write_operations: 0,
        }),
        io_operations(lines, k) == with_io_line(
            io_operations(lines, k - 1),
            text::words(lines[k - 1]),
        ),
        io_operations(lines, 0) == (0u64, 0u64),
{
}

/// The calls of a process are read off their own lines, and no other line changes them.
pub proof fn io_lines_are_read(t: (u64, u64), fields: Seq<Seq<char>>)
    requires
        fields.len() >= 2,
    ensures
        fields[0] == "syscr:"@ ==> with_io_line(t, fields) == (number_or_zero(fields[1]), t.1),
        fields[0] == "syscw:"@ ==> with_io_line(t, fields) == (t.0, number_or_zero(fields[1])),
        fields[0] != "syscr:"@ && fields[0] != "syscw:"@ ==> with_io_line(t, fields) == t,
{
    reveal_strlit("syscr:");
    reveal_strlit("syscw:");
    assert("syscr:"@[4] != "syscw:"@[4]);
}

/// A disk is physical unless it is a loop, memory or mapped device, or a partition: one behind a
/// `p` on a flash disk, one with a digit at the end on another.
pub proof fn physical_disks_are_told_apart(name: Seq<char>)
    ensures
        text::has_prefix(name, "loop"@) || text::has_prefix(name, "ram"@) || text::has_prefix(
            name,
            "dm-"@,
        ) ==> !physical_disk(name),
        physical_disk(name) && (text::has_prefix(name, "nvme"@) || text::has_prefix(
            name,
            "mmcblk"@,
        )) ==> !name.contains('p'),
        physical_disk(name) && !text::has_prefix(name, "nvme"@) && !text::has_prefix(
            name,
            "mmcblk"@,
        ) && (text::has_prefix(name, "sd"@) || text::has_prefix(name, "vd"@) || text::has_prefix(
            name,
            "xvd"@,
        )) && name.len() > 0 ==> !('0' <= name.last() && name.last() <= '9'),
        !physical_disk(name) ==> {
            ||| text::has_prefix(name, "loop"@)
            ||| text::has_prefix(name, "ram"@)
            ||| text::has_prefix(name, "dm-"@)
            ||| name.contains('p') && (text::has_prefix(name, "nvme"@) || text::has_prefix(
                name,
                "mmcblk"@,
            ))
            ||| name.len() > 0 && text::is_digit(name.last()) && (text::has_prefix(name, "sd"@)
                || text::has_prefix(name, "vd"@) || text::has_prefix(name, "xvd"@))
        },
{
}

/// Traffic is that of every interface but the loopback.
pub proof fn traffic_leaves_the_loopback_out(interfaces: Seq<InterfaceTotals>, k: int)
    requires
        0 < k <= interfaces.len(),
        external_traffic(interfaces, k - 1).0 + interfaces[k - 1].received <= u64::MAX,
        external_traffic(interfaces, k - 1).1 + interfaces[k - 1].sent <= u64::MAX,
    ensures
        external_traffic(interfaces, 0) == (0u64, 0u64),
        interfaces[k - 1].name@ == "lo"@ ==> external_traffic(interfaces, k) == external_traffic(
            interfaces,
            k - 1,
        ),
        interfaces[k - 1].name@ != "lo"@ ==> {
            &&& external_traffic(interfaces, k).0 == external_traffic(interfaces, k - 1).0
                + interfaces[k - 1].received
            &&& external_traffic(interfaces, k).1 == external_traffic(interfaces, k - 1).1
                + interfaces[k - 1].sent
        },
{
}

/// A store is called Tigris where it is reached as Amazon's at one of Tigris's endpoints, and by
/// its provider's name else.
pub proof fn stores_are_called_by_their_endpoint(provider: Seq<char>, endpoint: Seq<char>)
    ensures
        tigris(endpoint) <==> text::contains_text(endpoint, "tigrisdata.com"@)
            || text::contains_text(endpoint, "tigris.dev"@) || endpoint
            == "https://t3.storage.dev"@,
        store_label(provider, endpoint) == (if text::same_ignoring_case(provider, "aws"@)
            && tigris(endpoint) {
            "Tigris"@
        } else {
            provider
        }),
{
}

/// The value of a counter is the sum of its readings, and readings of another kind add nothing.
pub proof fn counters_add_their_readings(readings: Seq<MetricReading>, k: int)
    requires
        0 < k <= readings.len(),
    ensures
        counter_sum(readings, 0) == 0,
        readings[k - 1] matches MetricReading::Counter(value) ==> counter_sum(readings, k)
            == counter_sum(readings, k - 1) + value,
        !(readings[k - 1] is Counter) ==> counter_sum(readings, k) == counter_sum(readings, k - 1),
{
}

/// The disks are listed by name and mount point, one after the other.
pub proof fn disks_are_listed_in_order(disks: Seq<(String, String)>, k: int)
    requires
        1 < k <= disks.len(),
    ensures
        disk_list(disks, 0) == Seq::<char>::empty(),
        disk_list(disks, 1) == disks[0].0@ + ":"@ + disks[0].1@,
        disk_list(disks, k) == disk_list(disks, k - 1) + ", "@ + (disks[k - 1].0@ + ":"@ + disks[k
            - 1].1@),
{
}

} // verus!
