//! What a machine needs of its host, and the host without any of it.

use crate::text;
use crate::text::text;
use vstd::prelude::*;

verus! {

/// What a host can do. Nothing is known in advance of what it answers.
pub trait Platform {
    /// Reads a file.
    fn file_read(&self, path: &str) -> Result<Vec<u8>, String>;

    /// Writes a file.
    fn file_write(&self, path: &str, data: &[u8]) -> Result<(), String>;

    /// Whether a path exists.
    fn file_exists(&self, path: &str) -> bool;

    /// The names in a directory.
    fn file_list(&self, path: &str) -> Result<Vec<String>, String>;

    /// Deletes a file.
    fn file_delete(&self, path: &str) -> Result<(), String>;

    /// Fetches a page: body and status.
    fn http_get(&self, url: &str) -> Result<(Vec<u8>, u16), String>;

    /// Sends bytes: body of the answer and status.
    fn http_post(&self, url: &str, body: &[u8]) -> Result<(Vec<u8>, u16), String>;

    /// Runs a shell command: what it printed and its exit code.
    fn shell_exec(&self, cmd: &str) -> Result<(Vec<u8>, i32), String>;

    /// Reads an environment variable.
    fn env_var(&self, name: &str) -> Option<String>;

    /// Seconds since the Unix epoch.
    fn timestamp(&self) -> i64;

    /// Waits.
    fn sleep_ms(&self, ms: u64);

    /// Random bytes, as many as asked for.
    fn random_bytes(&self, n: usize) -> Vec<u8>;

    /// Keeps bytes under a key.
    fn save_state(&self, key: &str, data: &[u8]) -> Result<(), String>;

    /// The bytes kept under a key.
    fn load_state(&self, key: &str) -> Option<Vec<u8>>;

    /// The name of the host.
    fn name(&self) -> &str;
}

/// A browser: no files, no shell, no waiting.
pub struct WasmPlatform;

/// The byte at position `i` of the fallback for random bytes.
pub open spec fn fallback_byte(i: int) -> u8 {
    ((i % 256) as u8).wrapping_mul(137).wrapping_add(42)
}

impl WasmPlatform {
    /// A browser.
    pub fn new() -> (p: Self)
        ensures
            p == WasmPlatform,
    {
        WasmPlatform
    }
}

impl Platform for WasmPlatform {
    fn file_read(&self, _path: &str) -> (r: Result<Vec<u8>, String>)
        ensures
            r matches Err(e) && e@ == "no filesystem on WASM"@,
    {
        Err(text("no filesystem on WASM"))
    }

    fn file_write(&self, _path: &str, _data: &[u8]) -> (r: Result<(), String>)
        ensures
            r matches Err(e) && e@ == "no filesystem on WASM"@,
    {
        Err(text("no filesystem on WASM"))
    }

    fn file_exists(&self, _path: &str) -> (b: bool)
        ensures
            !b,
    {
        false
    }

    fn file_list(&self, _path: &str) -> (r: Result<Vec<String>, String>)
        ensures
            r matches Err(e) && e@ == "no filesystem on WASM"@,
    {
        Err(text("no filesystem on WASM"))
    }

    fn file_delete(&self, _path: &str) -> (r: Result<(), String>)
        ensures
            r matches Err(e) && e@ == "no filesystem on WASM"@,
    {
        Err(text("no filesystem on WASM"))
    }

    fn http_get(&self, _url: &str) -> (r: Result<(Vec<u8>, u16), String>)
        ensures
            r matches Err(e) && e@ == "use fetch() from JS"@,
    {
        Err(text("use fetch() from JS"))
    }

    fn http_post(&self, _url: &str, _body: &[u8]) -> (r: Result<(Vec<u8>, u16), String>)
        ensures
            r matches Err(e) && e@ == "use fetch() from JS"@,
    {
        Err(text("use fetch() from JS"))
    }

    fn shell_exec(&self, _cmd: &str) -> (r: Result<(Vec<u8>, i32), String>)
        ensures
            r matches Err(e) && e@ == "no shell on WASM"@,
    {
        Err(text("no shell on WASM"))
    }

    fn env_var(&self, _name: &str) -> (r: Option<String>)
        ensures
            r.is_none(),
    {
        None
    }

    fn timestamp(&self) -> (t: i64)
        ensures
            t == 0,
    {
        0
    }

    fn sleep_ms(&self, _ms: u64) {
    }

    fn random_bytes(&self, n: usize) -> (v: Vec<u8>)
        ensures
            v@ == Seq::new(n as nat, |i: int| fallback_byte(i)),
    {
        let mut v: Vec<u8> = Vec::new();
        let mut i: usize = 0;
        while i < n
            invariant
                i <= n,
                v@ == Seq::new(i as nat, |j: int| fallback_byte(j)),
            decreases n - i,
        {
            let b: u8 = (i % 256) as u8;
            v.push(b.wrapping_mul(137).wrapping_add(42));
            i = i + 1;
            assert(v@ =~= Seq::new(i as nat, |j: int| fallback_byte(j)));
        }
        v
    }

    fn save_state(&self, _key: &str, _data: &[u8]) -> (r: Result<(), String>)
        ensures
            r matches Err(e) && e@ == "use localStorage from JS"@,
    {
        Err(text("use localStorage from JS"))
    }

    fn load_state(&self, _key: &str) -> (r: Option<Vec<u8>>)
        ensures
            r.is_none(),
    {
        None
    }

    fn name(&self) -> (s: &str)
        ensures
            s@ == "wasm"@,
    {
        "wasm"
    }
}

} // verus!
