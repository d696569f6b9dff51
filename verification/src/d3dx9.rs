//! Texture creation through D3DX.
//!
//! D3DX checks the pool against the device before it gets to the device's own creation
//! function, so the managed pool is translated at its entry points too.

use crate::d3d9;
use crate::d3d9::translate_managed_pool;
use vstd::prelude::*;

verus! {

/// The entry points that are hooked.
#[derive(Clone, Copy, Debug, PartialEq, Eq, Structural)]
pub enum Entry {
    CreateTexture,
    CreateTextureFromFileInMemoryEx,
}

impl Entry {
    /// The name of the import.
    pub fn import_name(self) -> (name: &'static str)
        ensures
            name@ == match self {
                Entry::CreateTexture => "D3DXCreateTexture"@,
                Entry::CreateTextureFromFileInMemoryEx => "D3DXCreateTextureFromFileInMemoryEx"@,
            },
    {
        match self {
            Entry::CreateTexture => "D3DXCreateTexture",
            Entry::CreateTextureFromFileInMemoryEx => "D3DXCreateTextureFromFileInMemoryEx",
        }
    }
}

/// The pool and usage that a creation is forwarded with.
#[derive(Clone, Copy, Debug, PartialEq, Eq, Structural)]
pub struct TextureArgs {
    pub pool: u32,
    pub usage: u32,
    /// The game asked for the managed pool.
    pub translated: bool,
}

/// Rewrites the pool and usage of a creation.
pub fn hook_d3dx_create_texture(pool: u32, usage: u32) -> (args: TextureArgs)
    ensures
        (args.pool, args.usage) == d3d9::translated_pool(pool, usage),
        args.translated == (pool == crate::d3d::D3DPOOL_MANAGED),
{
    let mut pool_out: u32 = pool;
    let mut usage_out: u32 = usage;
    let translated = translate_managed_pool(&mut pool_out, &mut usage_out);
    TextureArgs { pool: pool_out, usage: usage_out, translated }
}

} // verus!
