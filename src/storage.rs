//! Where each store of a node lives, and the keys it files records under. The
//! stores themselves are the owner's; these say only the paths and keys.

use vstd::prelude::*;
use vstd::string::StringExecFns;

use crate::crypto::Sha256Digest;
use crate::text::{decimal, hex_encode, hex_of, push_decimal};

verus! {

/// The path of a store: `database/<name><node id>`.
fn store_path(name: &str, node_id: u16) -> (r: String)
    ensures
        r@ == "database/"@ + name@ + decimal(node_id as nat),
{
    let mut s = String::new();
    s.append("database/");
    s.append(name);
    push_decimal(&mut s, node_id as u64);
    assert(s@ =~= "database/"@ + name@ + decimal(node_id as nat));
    s
}

/// The store of finalized slots.
#[derive(Clone, Copy, Debug)]
pub struct BlockchainDatabase {
    pub node_id: u16,
}

impl BlockchainDatabase {
    pub fn db_path(node_id: u16) -> (r: String)
        ensures
            r@ == "database/blockchaindb"@ + decimal(node_id as nat),
    {
        let r = store_path("blockchaindb", node_id);
        assert(r@ =~= "database/blockchaindb"@ + decimal(node_id as nat)) by {
            reveal_strlit("database/");
            reveal_strlit("blockchaindb");
            reveal_strlit("database/blockchaindb");
        }
        r
    }

    /// The key of the slot at `height`: its eight big-endian bytes.
    pub fn slot_key(height: u64) -> (r: [u8; 8])
        ensures
            r@ == crate::crypto::be_bytes_u64(height),
    {
        let d = Sha256Digest::from_u64(height);
        let mut r = [0u8; 8];
        let mut i: usize = 0;
        while i < 8
            invariant
                i <= 8,
                r@.len() == 8,
                d.data@ == Seq::new(24, |k: int| 0u8) + crate::crypto::be_bytes_u64(height),
                forall|k: int| 0 <= k < i ==> r@[k] == crate::crypto::be_bytes_u64(height)[k],
            decreases 8 - i,
        {
            r[i] = d.data[24 + i];
            i = i + 1;
        }
        assert(r@ =~= crate::crypto::be_bytes_u64(height));
        r
    }
}

/// The store of compiled components.
#[derive(Clone, Copy, Debug)]
pub struct ComponentDatabase {
    pub node_id: u16,
}

impl ComponentDatabase {
    pub fn db_path(node_id: u16) -> (r: String)
        ensures
            r@ == "database/componentdb"@ + decimal(node_id as nat),
    {
        let r = store_path("componentdb", node_id);
        assert(r@ =~= "database/componentdb"@ + decimal(node_id as nat)) by {
            reveal_strlit("database/");
            reveal_strlit("componentdb");
            reveal_strlit("database/componentdb");
        }
        r
    }
}

/// The store of registered domains.
#[derive(Clone, Copy, Debug)]
pub struct DomainDatabase {
    pub node_id: u16,
}

impl DomainDatabase {
    pub fn db_path(node_id: u16) -> (r: String)
        ensures
            r@ == "database/domaindb"@ + decimal(node_id as nat),
    {
        let r = store_path("domaindb", node_id);
        assert(r@ =~= "database/domaindb"@ + decimal(node_id as nat)) by {
            reveal_strlit("database/");
            reveal_strlit("domaindb");
            reveal_strlit("database/domaindb");
        }
        r
    }
}

/// The store of site pages.
#[derive(Clone, Copy, Debug)]
pub struct PageDatabase {
    pub node_id: u16,
}

impl PageDatabase {
    pub fn db_path(node_id: u16) -> (r: String)
        ensures
            r@ == "database/pagedb"@ + decimal(node_id as nat),
    {
        let r = store_path("pagedb", node_id);
        assert(r@ =~= "database/pagedb"@ + decimal(node_id as nat)) by {
            reveal_strlit("database/");
            reveal_strlit("pagedb");
            reveal_strlit("database/pagedb");
        }
        r
    }

    /// The key of a page: the site id in hex, a bar, then the page path.
    pub fn get_page_key(site_id: Sha256Digest, page_path: &str) -> (r: String)
        ensures
            r@ == hex_of(site_id@) + "|"@ + page_path@,
    {
        let mut key = site_id.to_string();
        key.append("|");
        key.append(page_path);
        key
    }
}

/// The store of deployed sites.
#[derive(Clone, Copy, Debug)]
pub struct SiteDatabase {
    pub node_id: u16,
}

impl SiteDatabase {
    pub fn db_path(node_id: u16) -> (r: String)
        ensures
            r@ == "database/sitedb"@ + decimal(node_id as nat),
    {
        let r = store_path("sitedb", node_id);
        assert(r@ =~= "database/sitedb"@ + decimal(node_id as nat)) by {
            reveal_strlit("database/");
            reveal_strlit("sitedb");
            reveal_strlit("database/sitedb");
        }
        r
    }
}

impl Sha256Digest {
    /// The digest in lowercase hex.
    pub fn to_string(&self) -> (r: String)
        ensures
            r@ == hex_of(self@),
    {
        hex_encode(self.data.as_slice())
    }
}

} // verus!
