use vstd::prelude::*;

verus! {

/// Why reading network interfaces failed.
#[derive(PartialEq, Eq, Structural, Clone, Copy, Debug)]
pub enum GetNetInterfacesError {
    NoNameForInterfaceFound,
}

/// Why reading the public IP address failed.
#[derive(Debug)]
pub enum GetPublicIPError {
    /// The output did not hold an address; it is kept for the message.
    IpParsingFailed(String),
}

/// Why the network report could not be made.
#[derive(PartialEq, Eq, Structural, Clone, Copy, Debug)]
pub enum NetyError {
    NoGetNetInterfacesMethodSucceeded,
    NoGetPublicIPToolInstalled,
}

impl GetNetInterfacesError {
    /// The message of this error.
    pub fn message(&self) -> (r: &'static str)
        ensures
            r@ == "No name found for network interface."@,
    {
        "No name found for network interface."
    }
}

impl NetyError {
    /// The message of this error.
    pub fn message(&self) -> (r: &'static str)
        ensures
            *self == NetyError::NoGetNetInterfacesMethodSucceeded ==> r@
                == "No tools for getting network interfaces installed"@,
            *self == NetyError::NoGetPublicIPToolInstalled ==> r@
                == "No tools for getting the public ip installed"@,
    {
        match self {
            NetyError::NoGetNetInterfacesMethodSucceeded => "No tools for getting network interfaces installed",
            NetyError::NoGetPublicIPToolInstalled => "No tools for getting the public ip installed",
        }
    }
}

} // verus!
