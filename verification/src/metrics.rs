//! Result records that carry whole numbers only, and how they are read
//! from a parsed frame.

use vstd::prelude::*;
use crate::protocol::{number_member, read_number, read_text, text_member};

verus! {

/// The memory part of a performance sample, in megabytes.
#[derive(Debug, Clone, Copy, PartialEq, Eq, Structural)]
pub struct MemoryMetrics {
    pub used_mb: u64,
    pub total_mb: u64,
    pub available_mb: u64,
}

/// The scores of one benchmark run.
#[derive(Debug, PartialEq, Eq)]
pub struct BenchmarkResult {
    pub device_id: String,
    pub timestamp: u64,
    pub cpu_single: u32,
    pub cpu_multi: u32,
    pub gpu_score: u32,
    pub ai_score: u32,
    pub memory_bandwidth: u64,
    pub storage_read: u32,
    pub storage_write: u32,
    pub total_score: u32,
}

/// The mathematical value of a `BenchmarkResult`.
pub struct BenchmarkView {
    pub device_id: Seq<char>,
    pub timestamp: u64,
    pub cpu_single: u32,
    pub cpu_multi: u32,
    pub gpu_score: u32,
    pub ai_score: u32,
    pub memory_bandwidth: u64,
    pub storage_read: u32,
    pub storage_write: u32,
    pub total_score: u32,
}

impl View for BenchmarkResult {
    type V = BenchmarkView;

    open spec fn view(&self) -> BenchmarkView {
        BenchmarkView {
            device_id: self.device_id@,
            timestamp: self.timestamp,
            cpu_single: self.cpu_single,
            cpu_multi: self.cpu_multi,
            gpu_score: self.gpu_score,
            ai_score: self.ai_score,
            memory_bandwidth: self.memory_bandwidth,
            storage_read: self.storage_read,
            storage_write: self.storage_write,
            total_score: self.total_score,
        }
    }
}

impl Clone for BenchmarkResult {
    fn clone(&self) -> (r: Self)
        ensures
            r@ == self@,
    {
        BenchmarkResult {
            device_id: self.device_id.clone(),
            timestamp: self.timestamp,
            cpu_single: self.cpu_single,
            cpu_multi: self.cpu_multi,
            gpu_score: self.gpu_score,
            ai_score: self.ai_score,
            memory_bandwidth: self.memory_bandwidth,
            storage_read: self.storage_read,
            storage_write: self.storage_write,
            total_score: self.total_score,
        }
    }
}

/// The member of `doc` under `key` as a 32-bit score: present where the
/// member is a whole number from 0 to 2^32 - 1.
pub open spec fn score_member(doc: serde_json::Value, key: Seq<char>) -> Option<u32> {
    match number_member(doc, key) {
        Some(n) => if n <= u32::MAX {
            Some(n as u32)
        } else {
            None
        },
        None => None,
    }
}

/// The memory figures that a document carries, where it has all three as
/// whole numbers.
pub open spec fn memory_of(doc: serde_json::Value) -> Option<MemoryMetrics> {
    match (
        number_member(doc, "used_mb"@),
        number_member(doc, "total_mb"@),
        number_member(doc, "available_mb"@),
    ) {
        (Some(used_mb), Some(total_mb), Some(available_mb)) => Some(
            MemoryMetrics { used_mb, total_mb, available_mb },
        ),
        _ => None,
    }
}

/// The benchmark record that a document carries: it needs the device id
/// and every score, each in its range. A record without a time is stamped
/// with `now`.
pub open spec fn benchmark_of(doc: serde_json::Value, now: u64) -> Option<BenchmarkView> {
    match (
        text_member(doc, "device_id"@),
        score_member(doc, "cpu_single"@),
        score_member(doc, "cpu_multi"@),
        score_member(doc, "gpu_score"@),
        score_member(doc, "ai_score"@),
        number_member(doc, "memory_bandwidth"@),
        score_member(doc, "storage_read"@),
        score_member(doc, "storage_write"@),
        score_member(doc, "total_score"@),
    ) {
        (
            Some(device_id),
            Some(cpu_single),
            Some(cpu_multi),
            Some(gpu_score),
            Some(ai_score),
            Some(memory_bandwidth),
            Some(storage_read),
            Some(storage_write),
            Some(total_score),
        ) => Some(
            BenchmarkView {
                device_id,
                timestamp: match number_member(doc, "timestamp"@) {
                    Some(t) => t,
                    None => now,
                },
                cpu_single,
                cpu_multi,
                gpu_score,
                ai_score,
                memory_bandwidth,
                storage_read,
                storage_write,
                total_score,
            },
        ),
        _ => None,
    }
}

fn read_score(doc: &serde_json::Value, key: &str) -> (r: Option<u32>)
    ensures
        r == score_member(*doc, key@),
{
    match read_number(doc, key) {
        Some(n) => if n <= 0xffff_ffff {
            Some(n as u32)
        } else {
            None
        },
        None => None,
    }
}

impl MemoryMetrics {
    /// Reads the memory figures out of a parsed document.
    pub fn from_document(doc: &serde_json::Value) -> (r: Option<MemoryMetrics>)
        ensures
            r == memory_of(*doc),
    {
        let used_mb = read_number(doc, "used_mb");
        let total_mb = read_number(doc, "total_mb");
        let available_mb = read_number(doc, "available_mb");
        match (used_mb, total_mb, available_mb) {
            (Some(used_mb), Some(total_mb), Some(available_mb)) => Some(
                MemoryMetrics { used_mb, total_mb, available_mb },
            ),
            _ => None,
        }
    }
}

impl BenchmarkResult {
    /// Reads a benchmark record out of a parsed document, at the time
    /// `now`.
    pub fn from_document(doc: &serde_json::Value, now: u64) -> (r: Option<BenchmarkResult>)
        ensures
            match r {
                Some(b) => benchmark_of(*doc, now) == Some(b@),
                None => benchmark_of(*doc, now) is None,
            },
    {
        let device_id = read_text(doc, "device_id");
        let timestamp = match read_number(doc, "timestamp") {
            Some(t) => t,
            None => now,
        };
        let cpu_single = read_score(doc, "cpu_single");
        let cpu_multi = read_score(doc, "cpu_multi");
        let gpu_score = read_score(doc, "gpu_score");
        let ai_score = read_score(doc, "ai_score");
        let memory_bandwidth = read_number(doc, "memory_bandwidth");
        let storage_read = read_score(doc, "storage_read");
        let storage_write = read_score(doc, "storage_write");
        let total_score = read_score(doc, "total_score");
        match (
            device_id,
            cpu_single,
            cpu_multi,
            gpu_score,
            ai_score,
            memory_bandwidth,
            storage_read,
            storage_write,
            total_score,
        ) {
            (
                Some(device_id),
                Some(cpu_single),
                Some(cpu_multi),
                Some(gpu_score),
                Some(ai_score),
                Some(memory_bandwidth),
                Some(storage_read),
                Some(storage_write),
                Some(total_score),
            ) => Some(
                BenchmarkResult {
                    device_id,
                    timestamp,
                    cpu_single,
                    cpu_multi,
                    gpu_score,
                    ai_score,
                    memory_bandwidth,
                    storage_read,
                    storage_write,
                    total_score,
                },
            ),
            _ => None,
        }
    }
}

} // verus!
